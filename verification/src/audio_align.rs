//! Keeping the preview's audio on the wall clock.
//!
//! Positions are stereo frames on the encoder's sample-count timeline, 48 to the
//! millisecond. Audio that falls behind the wall is padded with silence up to
//! it; a burst that would run too far ahead loses its oldest frames.

use vstd::prelude::*;

verus! {

/// Stereo frames in one millisecond of 48 kHz audio.
pub const PREVIEW_AUDIO_FRAMES_PER_MS: u64 = 48;

/// Pad once the written audio is more than this far behind the wall.
pub const ALIGN_PAD_THRESHOLD_MS: u64 = 150;

/// A block may end at most this far ahead of the wall.
pub const MAX_AHEAD_MS: u64 = 300;

/// A block that would end further ahead is trimmed to end this far ahead.
pub const ALIGN_TARGET_AHEAD_MS: u64 = 100;

/// The connect gap that is bridged with silence is at most this long.
pub const MAX_PREROLL_GAP_MS: u64 = 5_000;

/// Frames of [`ALIGN_PAD_THRESHOLD_MS`].
pub const PAD_THRESHOLD_FRAMES: u64 = 7_200;

/// Frames of [`MAX_AHEAD_MS`].
pub const MAX_AHEAD_FRAMES: u64 = 14_400;

/// Frames of [`ALIGN_TARGET_AHEAD_MS`].
pub const TARGET_AHEAD_FRAMES: u64 = 4_800;

/// What to do around one block.
#[derive(Debug, Clone, Copy, PartialEq, Eq, Structural)]
pub struct AlignAction {
    /// Frames of silence to write before it.
    pub pad_frames: usize,
    /// Frames to drop from its start.
    pub skip_frames: usize,
}

/// Silence owed when `written` has fallen behind `wall`.
pub open spec fn pad_of(wall: int, written: int) -> int {
    if wall - written > PAD_THRESHOLD_FRAMES {
        wall - written
    } else {
        0
    }
}

/// Frames to drop from a block of `block` frames that starts at `start`.
pub open spec fn skip_of(wall: int, start: int, block: int) -> int {
    let end = start + block;
    if end > wall + MAX_AHEAD_FRAMES {
        let over = end - (wall + TARGET_AHEAD_FRAMES);
        if over < block {
            over
        } else {
            block
        }
    } else {
        0
    }
}

/// The written position after one block.
pub open spec fn written_after_block(wall: int, written: int, block: int) -> int {
    let start = written + pad_of(wall, written);
    start + block - skip_of(wall, start, block)
}

/// The written position after a wait without a block.
pub open spec fn written_after_timeout(wall: int, written: int) -> int {
    written + pad_of(wall, written)
}

/// Align one block of `block_frames` frames against the wall position.
pub fn align_block(wall_frames: u64, written_frames: u64, block_frames: usize) -> (r: AlignAction)
    requires
        wall_frames <= u64::MAX - MAX_AHEAD_FRAMES,
        wall_frames + block_frames <= u64::MAX,
        written_frames + block_frames <= u64::MAX,
        wall_frames - written_frames <= usize::MAX,
    ensures
        r.pad_frames == pad_of(wall_frames as int, written_frames as int),
        r.skip_frames == skip_of(
            wall_frames as int,
            written_frames + pad_of(wall_frames as int, written_frames as int),
            block_frames as int,
        ),
        r.skip_frames <= block_frames,
{
    let pad: usize = align_timeout(wall_frames, written_frames);
    let end: u64 = written_frames + pad as u64 + block_frames as u64;
    let skip: usize = if end > wall_frames + MAX_AHEAD_FRAMES {
        let over: u64 = end - (wall_frames + TARGET_AHEAD_FRAMES);
        if over < block_frames as u64 {
            over as usize
        } else {
            block_frames
        }
    } else {
        0
    };
    AlignAction { pad_frames: pad, skip_frames: skip }
}

/// Frames of silence to write when no block has come.
pub fn align_timeout(wall_frames: u64, written_frames: u64) -> (r: usize)
    requires
        wall_frames - written_frames <= usize::MAX,
    ensures
        r == pad_of(wall_frames as int, written_frames as int),
{
    if wall_frames > written_frames && wall_frames - written_frames > PAD_THRESHOLD_FRAMES {
        (wall_frames - written_frames) as usize
    } else {
        0
    }
}

/// The samples of an interleaved stereo block that remain after `skip_frames`
/// frames are dropped from its start: whole frames only.
pub fn block_tail_range(skip_frames: usize, len: usize) -> (r: core::ops::Range<usize>)
    ensures
        r.end == (len / 2) * 2,
        r.start == if skip_frames < len / 2 {
            skip_frames * 2
        } else {
            (len / 2) * 2
        },
        r.start <= r.end <= len,
{
    let frames: usize = len / 2;
    let end: usize = frames * 2;
    let start: usize = if skip_frames < frames {
        skip_frames * 2
    } else {
        end
    };
    core::ops::Range { start, end }
}

/// Interleaved samples of silence to write when the audio input connects: the
/// connect gap, capped, and the seam's lead.
pub fn audio_preroll_samples(gap_ms: u64, lead_ms: u32) -> (r: usize)
    requires
        (MAX_PREROLL_GAP_MS + lead_ms) * 96 <= usize::MAX,
    ensures
        r == ((if gap_ms < MAX_PREROLL_GAP_MS {
            gap_ms
        } else {
            MAX_PREROLL_GAP_MS
        }) + lead_ms) * 96,
{
    let gap: u64 = if gap_ms < MAX_PREROLL_GAP_MS {
        gap_ms
    } else {
        MAX_PREROLL_GAP_MS
    };
    ((gap + lead_ms as u64) * PREVIEW_AUDIO_FRAMES_PER_MS * 2) as usize
}

/// Interleaved stereo out of a block of `channels` channels: mono is doubled,
/// stereo kept, anything else refused.
pub open spec fn stereo_of<T>(samples: Seq<T>, channels: u32) -> Option<Seq<T>> {
    if channels == 1 {
        Some(Seq::new(samples.len() * 2, |i: int| samples[i / 2]))
    } else if channels == 2 {
        Some(samples)
    } else {
        None
    }
}

/// One block as interleaved stereo; `None` for a channel count other than one
/// or two.
pub fn to_stereo<T: Copy>(samples: &[T], channels: u32) -> (r: Option<Vec<T>>)
    ensures
        match r {
            Some(v) => stereo_of(samples@, channels) == Some(v@),
            None => stereo_of(samples@, channels) is None,
        },
{
    if channels == 1 {
        let mut out: Vec<T> = Vec::new();
        let mut i: usize = 0;
        while i < samples.len()
            invariant
                i <= samples@.len(),
                out@.len() == i * 2,
                forall|j: int| 0 <= j < out@.len() ==> #[trigger] out@[j] == samples@[j / 2],
            decreases samples@.len() - i,
        {
            out.push(samples[i]);
            out.push(samples[i]);
            i = i + 1;
        }
        assert(out@ =~= stereo_of(samples@, channels)->0);
        Some(out)
    } else if channels == 2 {
        Some(vstd::slice::slice_to_vec(samples))
    } else {
        None
    }
}

/// Milliseconds of 48 kHz interleaved stereo audio in `samples` samples.
pub fn stereo_samples_ms(samples: u64) -> (r: u64)
    ensures
        r == samples / 96,
{
    samples / 2 / PREVIEW_AUDIO_FRAMES_PER_MS
}

/// The wall clock advanced and then either one block of frames came, or none.
pub struct FeedStep {
    /// Frames the wall advanced by.
    pub elapsed: nat,
    /// The block that came.
    pub block: Option<nat>,
}

/// Wall and written positions after `steps`, from a fresh start.
pub open spec fn feed(steps: Seq<FeedStep>) -> (int, int)
    decreases steps.len(),
{
    if steps.len() == 0 {
        (0, 0)
    } else {
        let (wall, written) = feed(steps.drop_last());
        let step = steps.last();
        let now = wall + step.elapsed;
        (
            now,
            match step.block {
                Some(b) => written_after_block(now, written, b as int),
                None => written_after_timeout(now, written),
            },
        )
    }
}

/// However blocks come, late, early, in bursts or not at all, the written audio
/// stays within 300 ms ahead of the wall and 150 ms behind it after every step.
pub proof fn law_written_stays_near_the_wall(steps: Seq<FeedStep>)
    ensures
        ({
            let (wall, written) = feed(steps);
            wall - PAD_THRESHOLD_FRAMES <= written <= wall + MAX_AHEAD_FRAMES
        }),
    decreases steps.len(),
{
    if steps.len() > 0 {
        law_written_stays_near_the_wall(steps.drop_last());
    }
}

/// An aligned block ends neither more than 150 ms behind the wall nor, unless
/// the audio was there already, more than 300 ms ahead of it.
pub proof fn law_block_ends_in_the_band(wall: int, written: int, block: int)
    requires
        block >= 0,
    ensures
        ({
            let after = written_after_block(wall, written, block);
            &&& wall - PAD_THRESHOLD_FRAMES <= after
            &&& written <= after
            &&& after <= wall + MAX_AHEAD_FRAMES || after == written
        }),
{
}

/// Silence is written exactly when the audio is more than 150 ms behind the wall, and
/// then it ends on the wall.
pub proof fn law_padding_ends_on_the_wall(wall: int, written: int)
    ensures
        pad_of(wall, written) >= 0,
        wall - written <= 150 * 48 <==> pad_of(wall, written) == 0,
        pad_of(wall, written) > 0 ==> written + pad_of(wall, written) == wall,
        written_after_timeout(wall, written) == written + pad_of(wall, written),
{
}

/// A block is cut exactly when it would end more than 300 ms ahead of the wall; then it
/// ends 100 ms ahead, or all of it is dropped because it would begin after that.
pub proof fn law_a_cut_block_ends_near_the_wall(wall: int, start: int, block: int)
    requires
        block > 0,
    ensures
        ({
            let skip = skip_of(wall, start, block);
            &&& 0 <= skip <= block
            &&& skip == 0 <==> start + block <= wall + 300 * 48
            &&& 0 < skip < block ==> start + block - skip == wall + 100 * 48
            &&& skip == block ==> start >= wall + 100 * 48
        }),
{
}

/// A block is never padded and cut at once, unless it is longer than 300 ms.
pub proof fn law_silence_is_not_written_to_be_cut(wall: int, written: int, block: int)
    requires
        0 <= block <= 300 * 48,
        pad_of(wall, written) > 0,
    ensures
        skip_of(wall, written + pad_of(wall, written), block) == 0,
        written_after_block(wall, written, block) == wall + block,
{
}

/// Mono is doubled, sample by sample: both sides of a frame hold the sample. Stereo is
/// kept as it is. Nothing else has a stereo form.
pub proof fn law_stereo_keeps_every_sample<T>(samples: Seq<T>, channels: u32, i: int)
    requires
        0 <= i < samples.len(),
    ensures
        stereo_of(samples, channels) is Some <==> channels == 1 || channels == 2,
        channels == 1 ==> stereo_of(samples, channels)->0.len() == 2 * samples.len() && stereo_of(
            samples,
            channels,
        )->0[2 * i] == samples[i] && stereo_of(samples, channels)->0[2 * i + 1] == samples[i],
        channels == 2 ==> stereo_of(samples, channels)->0 == samples,
{
}

/// The preroll lasts as long as the gap it bridges, at most five seconds, and the lead.
pub proof fn law_the_preroll_lasts_as_long_as_the_gap(
    gap_ms: u64,
    lead_ms: u32,
    samples: usize,
    ms: u64,
)
    requires
        call_ensures(audio_preroll_samples, (gap_ms, lead_ms), samples),
        call_ensures(stereo_samples_ms, (samples as u64,), ms),
        samples <= u64::MAX,
    ensures
        gap_ms <= 5_000 ==> ms == gap_ms + lead_ms,
        gap_ms > 5_000 ==> ms == 5_000 + lead_ms,
{
}

/// What is left of a block is whole frames, its last ones: as many as the block has
/// less those dropped, and none of an odd sample at its end.
pub proof fn law_a_tail_is_whole_frames(
    skip_frames: usize,
    len: usize,
    r: core::ops::Range<usize>,
)
    requires
        call_ensures(block_tail_range, (skip_frames, len), r),
    ensures
        r.start % 2 == 0,
        r.end % 2 == 0,
        r.end <= len < r.end + 2,
        skip_frames <= len / 2 ==> r.start == 2 * skip_frames,
        skip_frames > len / 2 ==> r.start == r.end,
{
}

} // verus!
