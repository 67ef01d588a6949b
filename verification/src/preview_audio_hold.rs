//! The preview's audio feeder timing.
//!
//! Tapped audio leads the video by `lead_ms`. The feeder keeps that lead on its
//! own side: a block is written `lead - write_ahead` after it arrived, and is
//! placed by its arrival. So the audio in flight is bounded whatever the socket
//! buffers are, and a block that waited too long is trimmed, never appended
//! late. After silence a block is snapped onto its exact target; between
//! contiguous blocks small jitter never opens a gap.
//!
//! Times are microseconds since the feeder started; positions are stereo frames
//! on the encoder's timeline. `T` is one sample.

use crate::audio_align::{
    align_block, align_timeout, block_tail_range, pad_of, skip_of, AlignAction, MAX_AHEAD_FRAMES,
    PAD_THRESHOLD_FRAMES, PREVIEW_AUDIO_FRAMES_PER_MS,
};
use std::collections::VecDeque;
use vstd::prelude::*;

verus! {

/// How far ahead of the video the written audio runs, at most the lead.
pub const AUDIO_WRITE_AHEAD_MS: u64 = 200;

/// A block after silence that would start more than this early is snapped onto
/// its target.
pub const SNAP_TOLERANCE_MS: u64 = 150;

/// Frames of [`SNAP_TOLERANCE_MS`].
pub const SNAP_TOLERANCE_FRAMES: u64 = 7_200;

/// Most blocks held at once; past it the oldest is dropped.
pub const MAX_HELD_BLOCKS: usize = 512;

/// One write on the encoder's audio input.
#[derive(Debug, PartialEq)]
pub enum AudioWrite<T> {
    /// This many stereo frames of silence.
    Silence(usize),
    /// Interleaved stereo samples, whole frames only.
    Samples(Vec<T>),
}

/// One write as a mathematical value.
pub enum Write<T> {
    Silence(int),
    Samples(Seq<T>),
}

impl<T> View for AudioWrite<T> {
    type V = Write<T>;

    open spec fn view(&self) -> Write<T> {
        match self {
            AudioWrite::Silence(n) => Write::Silence(*n as int),
            AudioWrite::Samples(v) => Write::Samples(v@),
        }
    }
}

/// A list of writes as a mathematical value.
pub open spec fn writes_of<T>(writes: Seq<AudioWrite<T>>) -> Seq<Write<T>> {
    writes.map_values(|w: AudioWrite<T>| w@)
}

/// Stereo frames in `us` microseconds of 48 kHz audio.
pub open spec fn frames_of(us: int) -> int {
    us * 48 / 1000
}

fn frames_in(us: u64) -> (r: u64)
    requires
        us * 48 <= u64::MAX,
    ensures
        r == frames_of(us as int),
{
    us * PREVIEW_AUDIO_FRAMES_PER_MS / 1000
}

/// The feeder's timeline and the blocks it holds.
#[verifier::ext_equal]
pub struct HoldState<T> {
    /// Frames of preroll written before the feeder started.
    pub base: int,
    pub lead_us: int,
    pub ahead_us: int,
    /// Held blocks, oldest first: arrival and samples.
    pub held: Seq<(int, Seq<T>)>,
    pub written: int,
    pub padded: int,
    pub skipped: int,
    pub dropped: int,
    /// The last thing written was tapped audio.
    pub contiguous: bool,
}

/// Frames of the held blocks.
pub open spec fn total_frames<T>(held: Seq<(int, Seq<T>)>) -> int
    decreases held.len(),
{
    if held.len() == 0 {
        0
    } else {
        held[0].1.len() / 2 + total_frames(held.skip(1))
    }
}

/// Frames of tapped audio among `writes`.
pub open spec fn content_frames<T>(writes: Seq<Write<T>>) -> int
    decreases writes.len(),
{
    if writes.len() == 0 {
        0
    } else {
        content_frames(writes.drop_last()) + match writes.last() {
            Write::Silence(_) => 0,
            Write::Samples(s) => (s.len() / 2) as int,
        }
    }
}

/// Frames of silence among `writes`.
pub open spec fn silence_frames<T>(writes: Seq<Write<T>>) -> int
    decreases writes.len(),
{
    if writes.len() == 0 {
        0
    } else {
        silence_frames(writes.drop_last()) + match writes.last() {
            Write::Silence(n) => n,
            Write::Samples(_) => 0,
        }
    }
}

impl<T> HoldState<T> {
    /// Where the written audio should be at `now`.
    pub open spec fn position(self, now: int) -> int {
        self.base + frames_of(now + self.ahead_us)
    }

    /// Where a block that arrived at `arrival` starts.
    pub open spec fn target(self, arrival: int) -> int {
        self.base + frames_of(arrival + self.lead_us)
    }

    /// When a block that arrived at `arrival` is written.
    pub open spec fn due(self, arrival: int) -> int {
        arrival + self.lead_us - self.ahead_us
    }

    /// Silence of `n` frames is written, if any.
    pub open spec fn pad(self, n: int, out: Seq<Write<T>>) -> (HoldState<T>, Seq<Write<T>>) {
        if n > 0 {
            (
                HoldState {
                    written: self.written + n,
                    padded: self.padded + n,
                    contiguous: false,
                    ..self
                },
                out.push(Write::Silence(n)),
            )
        } else {
            (self, out)
        }
    }

    /// Silence that snaps a block after silence onto its target.
    pub open spec fn snap(self, target: int) -> int {
        if !self.contiguous && target - self.written > SNAP_TOLERANCE_FRAMES {
            target - self.written
        } else {
            0
        }
    }

    /// The tail of a block is written, if any of it is left.
    pub open spec fn keep(
        self,
        skip: int,
        samples: Seq<T>,
        out: Seq<Write<T>>,
    ) -> (HoldState<T>, Seq<Write<T>>) {
        let frames = (samples.len() / 2) as int;
        let s = HoldState { skipped: self.skipped + skip, ..self };
        if skip < frames {
            (
                HoldState { written: s.written + frames - skip, contiguous: true, ..s },
                out.push(Write::Samples(samples.subrange(skip * 2, frames * 2))),
            )
        } else {
            (s, out)
        }
    }

    /// One due block is placed by its arrival: snapped after silence, padded
    /// when it is late, trimmed when it would end too far past its target.
    pub open spec fn place(
        self,
        arrival: int,
        samples: Seq<T>,
        out: Seq<Write<T>>,
    ) -> (HoldState<T>, Seq<Write<T>>) {
        let target = self.target(arrival);
        let (s1, out1) = self.pad(self.snap(target), out);
        let (s2, out2) = s1.pad(pad_of(target, s1.written), out1);
        s2.keep(skip_of(target, s2.written, (samples.len() / 2) as int), samples, out2)
    }

    /// The oldest block is held and due at `now`.
    pub open spec fn has_due(self, now: int) -> bool {
        self.held.len() > 0 && self.due(self.held[0].0) <= now
    }

    /// Every due block is placed, oldest first.
    pub open spec fn placed(
        self,
        now: int,
        out: Seq<Write<T>>,
    ) -> (HoldState<T>, Seq<Write<T>>)
        decreases self.held.len(),
    {
        if self.has_due(now) {
            let (t, out1) = (HoldState { held: self.held.skip(1), ..self }).place(
                self.held[0].0,
                self.held[0].1,
                out,
            );
            t.placed(now, out1)
        } else {
            (self, out)
        }
    }

    /// Everything written at `now`: the due blocks, then silence up to the
    /// position once the audio is too far behind it.
    pub open spec fn taken(self, now: int) -> (HoldState<T>, Seq<Write<T>>) {
        let (t, out) = self.placed(now, Seq::empty());
        t.pad(pad_of(t.position(now), t.written), out)
    }

    /// A feeder that has just started: `base` frames of preroll are written, and the
    /// audio leads its video by `lead_ms`.
    pub open spec fn started(base: int, lead_ms: int) -> HoldState<T> {
        HoldState {
            base,
            lead_us: lead_ms * 1000,
            ahead_us: (if lead_ms < AUDIO_WRITE_AHEAD_MS {
                lead_ms
            } else {
                AUDIO_WRITE_AHEAD_MS as int
            }) * 1000,
            held: Seq::empty(),
            written: base,
            padded: 0,
            skipped: 0,
            dropped: 0,
            contiguous: false,
        }
    }

    /// A block that arrived at `arrival` is held; past the bound the oldest is dropped
    /// and counted.
    pub open spec fn pushed(self, arrival: int, samples: Seq<T>) -> HoldState<T> {
        if self.held.len() >= MAX_HELD_BLOCKS {
            HoldState {
                held: self.held.skip(1).push((arrival, samples)),
                skipped: self.skipped + self.held[0].1.len() / 2,
                dropped: self.dropped + 1,
                ..self
            }
        } else {
            HoldState { held: self.held.push((arrival, samples)), ..self }
        }
    }

    /// The invariant of every feeder.
    pub open spec fn wf(self) -> bool {
        &&& 0 <= self.base
        &&& 0 <= self.lead_us <= u32::MAX * 1000
        &&& self.ahead_us == if self.lead_us < AUDIO_WRITE_AHEAD_MS * 1000 {
            self.lead_us
        } else {
            AUDIO_WRITE_AHEAD_MS * 1000
        }
        &&& self.base + self.padded <= self.written <= u64::MAX
        &&& 0 <= self.padded
        &&& 0 <= self.skipped
        &&& 0 <= self.dropped
        &&& self.held.len() <= MAX_HELD_BLOCKS
        &&& forall|i: int|
            0 <= i < self.held.len() ==> 0 <= (#[trigger] self.held[i]).0 && self.held[i].0
                + self.lead_us <= u64::MAX && self.held[i].1.len() <= usize::MAX
    }

    /// What `take_writes` computes at `now` fits: the position, also behind the blocks
    /// that are held.
    pub open spec fn fits(self, now: int) -> bool {
        &&& (now + self.ahead_us) * 48 <= u64::MAX
        &&& self.position(now) <= usize::MAX
        &&& self.position(now) + MAX_AHEAD_FRAMES + total_frames(self.held) <= u64::MAX
        &&& self.written + total_frames(self.held) <= u64::MAX
        &&& self.skipped + total_frames(self.held) <= u64::MAX
    }
}

/// The audio feeder. See the module doc.
#[derive(Debug)]
pub struct AudioHold<T> {
    base_frames: u64,
    lead_us: u64,
    ahead_us: u64,
    held: VecDeque<(u64, Vec<T>)>,
    written_frames: u64,
    padded_frames: u64,
    skipped_frames: u64,
    dropped_blocks: u64,
    contiguous: bool,
}

/// A held block as a mathematical value.
pub open spec fn block_view<T>(b: (u64, Vec<T>)) -> (int, Seq<T>) {
    (b.0 as int, b.1@)
}

impl<T> View for AudioHold<T> {
    type V = HoldState<T>;

    closed spec fn view(&self) -> HoldState<T> {
        HoldState {
            base: self.base_frames as int,
            lead_us: self.lead_us as int,
            ahead_us: self.ahead_us as int,
            held: self.held@.map_values(|b: (u64, Vec<T>)| block_view(b)),
            written: self.written_frames as int,
            padded: self.padded_frames as int,
            skipped: self.skipped_frames as int,
            dropped: self.dropped_blocks as int,
            contiguous: self.contiguous,
        }
    }
}

impl<T> AudioHold<T> {
    /// A feeder that has just written `base_frames` of preroll silence, for audio
    /// that leads its video by `lead_ms`.
    pub fn new(base_frames: u64, lead_ms: u32) -> (r: Self)
        ensures
            r@.wf(),
            r@ == HoldState::<T>::started(base_frames as int, lead_ms as int),
    {
        let lead_us: u64 = lead_ms as u64 * 1000;
        let ahead: u64 = AUDIO_WRITE_AHEAD_MS * 1000;
        let r = AudioHold {
            base_frames,
            lead_us,
            ahead_us: if lead_us < ahead {
                lead_us
            } else {
                ahead
            },
            held: VecDeque::new(),
            written_frames: base_frames,
            padded_frames: 0,
            skipped_frames: 0,
            dropped_blocks: 0,
            contiguous: false,
        };
        assert(r@.held =~= Seq::empty());
        r
    }

    /// The effective write-ahead (ms).
    pub fn write_ahead_ms(&self) -> (r: u64)
        ensures
            r == self@.ahead_us / 1000,
    {
        self.ahead_us / 1000
    }

    /// Where the written audio should be at `now_us`: the wall clock plus the
    /// write-ahead.
    pub fn position_at(&self, now_us: u64) -> (r: u64)
        requires
            self@.wf(),
            (now_us + self@.ahead_us) * 48 <= u64::MAX,
            self@.position(now_us as int) <= u64::MAX,
        ensures
            r == self@.position(now_us as int),
    {
        self.base_frames + frames_in(now_us + self.ahead_us)
    }

    /// Where a block that arrived at `arrival_us` starts: its arrival plus the
    /// lead.
    pub fn block_target(&self, arrival_us: u64) -> (r: u64)
        requires
            self@.wf(),
            (arrival_us + self@.lead_us) * 48 <= u64::MAX,
            self@.target(arrival_us as int) <= u64::MAX,
        ensures
            r == self@.target(arrival_us as int),
    {
        self.base_frames + frames_in(arrival_us + self.lead_us)
    }

    /// When that block is due to be written: `lead - write_ahead` after it
    /// arrived.
    pub fn due_us(&self, arrival_us: u64) -> (r: u64)
        requires
            self@.wf(),
            arrival_us + self@.lead_us <= u64::MAX,
        ensures
            r == self@.due(arrival_us as int),
    {
        arrival_us + self.lead_us - self.ahead_us
    }

    /// Hold one tapped block. Past [`MAX_HELD_BLOCKS`] the oldest held block is
    /// dropped and counted.
    pub fn push(&mut self, arrival_us: u64, samples: Vec<T>)
        requires
            old(self)@.wf(),
            arrival_us + old(self)@.lead_us <= u64::MAX,
            old(self)@.held.len() >= MAX_HELD_BLOCKS ==> old(self)@.skipped + old(
                self,
            )@.held[0].1.len() / 2 <= u64::MAX && old(self)@.dropped < u64::MAX,
        ensures
            final(self)@.wf(),
            final(self)@ == old(self)@.pushed(arrival_us as int, samples@),
    {
        let ghost block = (arrival_us as int, samples@);
        assert(samples.len() <= usize::MAX);
        if self.held.len() >= MAX_HELD_BLOCKS {
            assert(old(self)@.held[0] == block_view(old(self).held@[0]));
            match self.held.pop_front() {
                Some((_, oldest)) => {
                    self.skipped_frames = self.skipped_frames + (oldest.len() / 2) as u64;
                    self.dropped_blocks = self.dropped_blocks + 1;
                },
                None => {},
            }
            self.held.push_back((arrival_us, samples));
            assert(self@.held =~= old(self)@.held.skip(1).push(block));
        } else {
            self.held.push_back((arrival_us, samples));
            assert(self@.held =~= old(self)@.held.push(block));
        }
    }

    /// How long the feeder may wait for the next tapped block: until the oldest
    /// held block is due, at most `max_us`.
    pub fn wait_us(&self, now_us: u64, max_us: u64) -> (r: u64)
        requires
            self@.wf(),
        ensures
            r == if self@.held.len() == 0 {
                max_us as int
            } else {
                let left = self@.due(self@.held[0].0) - now_us;
                if left <= 0 {
                    0
                } else if left < max_us {
                    left
                } else {
                    max_us as int
                }
            },
    {
        if self.held.len() == 0 {
            return max_us;
        }
        let arrival: u64 = self.held[0].0;
        assert(self@.held[0].0 == arrival);
        let due: u64 = self.due_us(arrival);
        if due <= now_us {
            0
        } else if due - now_us < max_us {
            due - now_us
        } else {
            max_us
        }
    }

    /// Write `frames` of silence.
    fn pad(&mut self, frames: usize, out: &mut Vec<AudioWrite<T>>)
        requires
            old(self).written_frames + frames <= u64::MAX,
            old(self).padded_frames + frames <= u64::MAX,
        ensures
            (final(self)@, writes_of(final(out)@)) == old(self)@.pad(
                frames as int,
                writes_of(old(out)@),
            ),
            final(self).held == old(self).held,
    {
        if frames > 0 {
            self.written_frames = self.written_frames + frames as u64;
            self.padded_frames = self.padded_frames + frames as u64;
            self.contiguous = false;
            out.push(AudioWrite::Silence(frames));
            assert(writes_of(out@) =~= writes_of(old(out)@).push(Write::Silence(frames as int)));
        }
    }

    /// Write what is left of a block after `skip` frames.
    fn keep(&mut self, skip: usize, samples: Vec<T>, out: &mut Vec<AudioWrite<T>>)
        requires
            old(self).skipped_frames + skip <= u64::MAX,
            skip <= samples@.len() / 2,
            old(self).written_frames + samples@.len() / 2 - skip <= u64::MAX,
        ensures
            (final(self)@, writes_of(final(out)@)) == old(self)@.keep(
                skip as int,
                samples@,
                writes_of(old(out)@),
            ),
            final(self).held == old(self).held,
    {
        let mut samples: Vec<T> = samples;
        let ghost whole = samples@;
        self.skipped_frames = self.skipped_frames + skip as u64;
        let range: core::ops::Range<usize> = block_tail_range(skip, samples.len());
        if range.start < range.end {
            self.written_frames = self.written_frames + ((range.end - range.start) / 2) as u64;
            self.contiguous = true;
            samples.truncate(range.end);
            let tail: Vec<T> = samples.split_off(range.start);
            assert(tail@ =~= whole.subrange(skip * 2, ((whole.len() / 2) * 2) as int));
            out.push(AudioWrite::Samples(tail));
            assert(writes_of(out@) =~= writes_of(old(out)@).push(Write::Samples(tail@)));
        }
    }

    /// Everything the feeder must write at `now_us`, in order.
    pub fn take_writes(&mut self, now_us: u64) -> (out: Vec<AudioWrite<T>>)
        requires
            old(self)@.wf(),
            old(self)@.fits(now_us as int),
        ensures
            final(self)@.wf(),
            (final(self)@, writes_of(out@)) == old(self)@.taken(now_us as int),
    {
        let mut out: Vec<AudioWrite<T>> = Vec::new();
        assert(writes_of(out@) =~= Seq::empty());
        while self.held.len() > 0
            invariant
                self@.wf(),
                self@.fits(now_us as int),
                self@.position(now_us as int) == old(self)@.position(now_us as int),
                self@.placed(now_us as int, writes_of(out@)) == old(self)@.placed(
                    now_us as int,
                    Seq::empty(),
                ),
            ensures
                self@.wf(),
                self@.fits(now_us as int),
                self@.position(now_us as int) == old(self)@.position(now_us as int),
                (self@, writes_of(out@)) == old(self)@.placed(now_us as int, Seq::empty()),
            decreases self.held@.len(),
        {
            let arrival_us: u64 = self.held[0].0;
            assert(self@.held[0] == block_view(self.held@[0]));
            if self.due_us(arrival_us) > now_us {
                break;
            }
            let ghost before = self@;
            let ghost out0 = writes_of(out@);
            let (_, samples): (u64, Vec<T>) = match self.held.pop_front() {
                Some(b) => b,
                None => {
                    break;
                },
            };
            let ghost block = samples@;
            let ghost popped = self@;
            proof {
                assert(popped =~= (HoldState { held: before.held.skip(1), ..before }));
                assert(block == before.held[0].1);
                lemma_due_target(before, before.held[0].0, now_us as int);
                assert(popped.target(arrival_us as int) <= popped.position(now_us as int));
                lemma_total_frames_nonneg(before.held.skip(1));
                lemma_place(popped, arrival_us as int, block, out0, now_us as int);
                lemma_place_accounts(popped, arrival_us as int, block, out0);
            }
            let target: u64 = self.block_target(arrival_us);
            let short: u64 = if target > self.written_frames {
                target - self.written_frames
            } else {
                0
            };
            if !self.contiguous && short > SNAP_TOLERANCE_FRAMES {
                self.pad(short as usize, &mut out);
            }
            let ghost snapped = self@;
            assert((snapped, writes_of(out@)) == popped.pad(popped.snap(target as int), out0));
            let a: AlignAction = align_block(target, self.written_frames, samples.len() / 2);
            self.pad(a.pad_frames, &mut out);
            self.keep(a.skip_frames, samples, &mut out);
            assert((self@, writes_of(out@)) == popped.place(arrival_us as int, block, out0));
            assert(self@.held == before.held.skip(1));
        }
        let wall: u64 = self.position_at(now_us);
        let pad: usize = align_timeout(wall, self.written_frames);
        proof {
            lemma_total_frames_nonneg(self@.held);
        }
        self.pad(pad, &mut out);
        out
    }

    /// Frames written so far, the preroll among them.
    pub fn written_frames(&self) -> (r: u64)
        ensures
            r == self@.written,
    {
        self.written_frames
    }

    /// Frames of silence padded so far, the preroll not among them.
    pub fn padded_frames(&self) -> (r: u64)
        ensures
            r == self@.padded,
    {
        self.padded_frames
    }

    /// Frames of tapped audio dropped so far.
    pub fn skipped_frames(&self) -> (r: u64)
        ensures
            r == self@.skipped,
    {
        self.skipped_frames
    }

    /// Held blocks dropped by the cap.
    pub fn dropped_blocks(&self) -> (r: u64)
        ensures
            r == self@.dropped,
    {
        self.dropped_blocks
    }

    /// Frames held, not yet due.
    pub fn held_frames(&self) -> (r: u64)
        requires
            total_frames(self@.held) <= u64::MAX,
        ensures
            r == total_frames(self@.held),
    {
        let mut sum: u64 = 0;
        let mut i: usize = 0;
        proof {
            assert(self@.held.skip(0) =~= self@.held);
        }
        while i < self.held.len()
            invariant
                i <= self.held@.len(),
                sum + total_frames(self@.held.skip(i as int)) == total_frames(self@.held),
                total_frames(self@.held) <= u64::MAX,
            decreases self.held@.len() - i,
        {
            let n: usize = self.held[i].1.len();
            proof {
                let rest = self@.held.skip(i as int);
                assert(rest[0] == block_view(self.held@[i as int]));
                assert(rest.skip(1) =~= self@.held.skip(i + 1));
                lemma_total_frames_nonneg(rest.skip(1));
            }
            sum = sum + (n / 2) as u64;
            i = i + 1;
        }
        assert(self@.held.skip(i as int) =~= Seq::empty());
        sum
    }
}

proof fn lemma_total_frames_nonneg<T>(held: Seq<(int, Seq<T>)>)
    ensures
        total_frames(held) >= 0,
    decreases held.len(),
{
    if held.len() > 0 {
        lemma_total_frames_nonneg(held.skip(1));
    }
}

/// A due block's target lies at or before the position.
proof fn lemma_due_target<T>(s: HoldState<T>, arrival: int, now: int)
    requires
        s.due(arrival) <= now,
    ensures
        s.target(arrival) <= s.position(now),
{
    assert((arrival + s.lead_us) * 48 <= (now + s.ahead_us) * 48);
    vstd::arithmetic::div_mod::lemma_div_is_ordered(
        (arrival + s.lead_us) * 48,
        (now + s.ahead_us) * 48,
        1000,
    );
}

/// Placing a due block keeps the timeline in range.
proof fn lemma_place<T>(
    s: HoldState<T>,
    arrival: int,
    samples: Seq<T>,
    out: Seq<Write<T>>,
    now: int,
)
    requires
        s.wf(),
        s.target(arrival) <= s.position(now),
        s.position(now) + MAX_AHEAD_FRAMES <= u64::MAX,
    ensures
        s.place(arrival, samples, out).0.wf(),
        s.place(arrival, samples, out).0.held == s.held,
{
    let target = s.target(arrival);
    let (s1, out1) = s.pad(s.snap(target), out);
    let (s2, out2) = s1.pad(pad_of(target, s1.written), out1);
    assert(s2.written <= s.written || s2.written == target);
}

/// A block is due exactly when the position reaches its target: then it is
/// written in its place, neither early nor late. That is the lead less the write-ahead
/// after it arrived, never before it arrived.
pub proof fn law_due_when_the_position_reaches_the_target<T>(s: HoldState<T>, arrival: int)
    ensures
        s.position(s.due(arrival)) == s.target(arrival),
        forall|now: int|
            now < s.due(arrival) ==> #[trigger] s.position(now) <= s.target(arrival),
        s.wf() ==> s.due(arrival) == arrival + s.lead_us - (if s.lead_us < 200_000 {
            s.lead_us
        } else {
            200_000
        }) && s.due(arrival) >= arrival,
{
    assert forall|now: int| now < s.due(arrival) implies #[trigger] s.position(now) <= s.target(
        arrival,
    ) by {
        vstd::arithmetic::div_mod::lemma_div_is_ordered(
            (now + s.ahead_us) * 48,
            (arrival + s.lead_us) * 48,
            1000,
        );
    }
}

/// A piece is worth writing: some silence, or some whole frames.
pub open spec fn is_piece<T>(w: Write<T>) -> bool {
    match w {
        Write::Silence(n) => n > 0,
        Write::Samples(v) => v.len() > 0 && v.len() % 2 == 0,
    }
}

/// Every one of `writes` is worth writing.
pub open spec fn are_pieces<T>(writes: Seq<Write<T>>) -> bool {
    forall|i: int| 0 <= i < writes.len() ==> is_piece(#[trigger] writes[i])
}

proof fn lemma_write_push<T>(out: Seq<Write<T>>, w: Write<T>)
    ensures
        content_frames(out.push(w)) == content_frames(out) + match w {
            Write::Silence(_) => 0,
            Write::Samples(v) => (v.len() / 2) as int,
        },
        silence_frames(out.push(w)) == silence_frames(out) + match w {
            Write::Silence(n) => n,
            Write::Samples(_) => 0,
        },
        are_pieces(out) && is_piece(w) ==> are_pieces(out.push(w)),
{
    assert(out.push(w).drop_last() =~= out);
    assert(out.push(w).last() == w);
}

proof fn lemma_writes_add<T>(a: Seq<Write<T>>, b: Seq<Write<T>>)
    ensures
        content_frames(a + b) == content_frames(a) + content_frames(b),
        silence_frames(a + b) == silence_frames(a) + silence_frames(b),
        are_pieces(a) && are_pieces(b) ==> are_pieces(a + b),
    decreases b.len(),
{
    if b.len() == 0 {
        assert(a + b =~= a);
    } else {
        assert((a + b).drop_last() =~= a + b.drop_last());
        assert((a + b).last() == b.last());
        lemma_writes_add(a, b.drop_last());
    }
}

/// What one placed block does to the accounts.
proof fn lemma_place_accounts<T>(
    s: HoldState<T>,
    arrival: int,
    samples: Seq<T>,
    out: Seq<Write<T>>,
)
    ensures
        ({
            let (t, out1) = s.place(arrival, samples, out);
            let target = s.target(arrival);
            &&& t.held == s.held && t.dropped == s.dropped
            &&& t.base == s.base && t.lead_us == s.lead_us && t.ahead_us == s.ahead_us
            &&& t.skipped + content_frames(out1) == s.skipped + content_frames(out) + (
            samples.len() / 2)
            &&& t.skipped <= s.skipped + samples.len() / 2
            &&& t.padded - s.padded == silence_frames(out1) - silence_frames(out)
            &&& t.written - s.written == (t.padded - s.padded) + (content_frames(out1)
                - content_frames(out))
            &&& are_pieces(out) ==> are_pieces(out1)
            &&& s.written <= t.written
            &&& t.written <= s.written || t.written <= target + MAX_AHEAD_FRAMES
        }),
{
    let target = s.target(arrival);
    let frames = (samples.len() / 2) as int;
    let (s1, out1) = s.pad(s.snap(target), out);
    let (s2, out2) = s1.pad(pad_of(target, s1.written), out1);
    let skip = skip_of(target, s2.written, frames);
    lemma_write_push(out, Write::Silence(s.snap(target)));
    lemma_write_push(out1, Write::Silence(pad_of(target, s1.written)));
    if skip < frames {
        let tail = samples.subrange(skip * 2, frames * 2);
        assert(tail.len() == (frames - skip) * 2);
        lemma_write_push(out2, Write::Samples(tail));
    }
}

/// What placing every due block does to the accounts.
proof fn lemma_placed_accounts<T>(s: HoldState<T>, now: int, out: Seq<Write<T>>)
    ensures
        ({
            let (t, out1) = s.placed(now, out);
            let gone = s.held.len() - t.held.len();
            &&& t.base == s.base && t.lead_us == s.lead_us && t.ahead_us == s.ahead_us
            &&& t.dropped == s.dropped
            &&& !t.has_due(now)
            &&& t.skipped + total_frames(t.held) + content_frames(out1) == s.skipped
                + total_frames(s.held) + content_frames(out)
            &&& t.padded - s.padded == silence_frames(out1) - silence_frames(out)
            &&& t.written - s.written == (t.padded - s.padded) + (content_frames(out1)
                - content_frames(out))
            &&& are_pieces(out) ==> are_pieces(out1)
            &&& t.written <= s.written || t.written <= s.position(now) + MAX_AHEAD_FRAMES
            &&& 0 <= gone
            &&& t.held == s.held.skip(gone)
            &&& forall|i: int| 0 <= i < gone ==> s.due((#[trigger] s.held[i]).0) <= now
        }),
    decreases s.held.len(),
{
    if s.has_due(now) {
        let popped = HoldState { held: s.held.skip(1), ..s };
        let arrival = s.held[0].0;
        let (p, out1) = popped.place(arrival, s.held[0].1, out);
        lemma_due_target(s, arrival, now);
        lemma_place_accounts(popped, arrival, s.held[0].1, out);
        lemma_placed_accounts(p, now, out1);
        let (t, _) = s.placed(now, out);
        let gone = s.held.len() - t.held.len();
        assert(p.held.skip(gone - 1) =~= s.held.skip(gone));
        assert forall|i: int| 0 <= i < gone implies s.due((#[trigger] s.held[i]).0) <= now by {
            if i > 0 {
                assert(p.held[i - 1] == s.held[i]);
            }
        }
    } else {
        assert(s.held.skip(0) =~= s.held);
    }
}

/// What everything written at `now` does to the accounts.
proof fn lemma_taken_accounts<T>(s: HoldState<T>, now: int)
    ensures
        ({
            let (t, out) = s.taken(now);
            let gone = s.held.len() - t.held.len();
            &&& t.base == s.base && t.lead_us == s.lead_us && t.ahead_us == s.ahead_us
            &&& t.dropped == s.dropped
            &&& !t.has_due(now)
            &&& t.skipped + total_frames(t.held) + content_frames(out) == s.skipped
                + total_frames(s.held)
            &&& t.padded - s.padded == silence_frames(out)
            &&& t.written - s.written == silence_frames(out) + content_frames(out)
            &&& are_pieces(out)
            &&& s.position(now) - PAD_THRESHOLD_FRAMES <= t.written
            &&& s.written <= s.position(now) + MAX_AHEAD_FRAMES ==> t.written <= s.position(now)
                + MAX_AHEAD_FRAMES
            &&& 0 <= gone
            &&& t.held == s.held.skip(gone)
            &&& forall|i: int| 0 <= i < gone ==> s.due((#[trigger] s.held[i]).0) <= now
        }),
{
    lemma_placed_accounts(s, now, Seq::<Write<T>>::empty());
    let (t, out) = s.placed(now, Seq::empty());
    lemma_write_push(out, Write::Silence(pad_of(t.position(now), t.written)));
}

/// No tapped frame is lost uncounted: what was held is written, dropped and
/// counted, or still held; and what was written is tapped audio or counted
/// silence. What stays held is not due.
pub proof fn law_every_frame_is_accounted_for<T>(s: HoldState<T>, now: int)
    ensures
        ({
            let (t, out) = s.taken(now);
            &&& t.skipped + total_frames(t.held) + content_frames(out) == s.skipped
                + total_frames(s.held)
            &&& t.padded - s.padded == silence_frames(out)
            &&& t.written - s.written == silence_frames(out) + content_frames(out)
            &&& !t.has_due(now)
        }),
{
    lemma_taken_accounts(s, now);
}

/// The audio in flight is bounded and the encoder is never starved: after every
/// call the written audio is at most 150 ms behind its position, and at most
/// 300 ms past it unless it was already.
pub proof fn law_written_stays_near_the_position<T>(s: HoldState<T>, now: int)
    ensures
        ({
            let (t, _) = s.taken(now);
            &&& s.position(now) - PAD_THRESHOLD_FRAMES <= t.written
            &&& s.written <= s.position(now) + MAX_AHEAD_FRAMES ==> t.written <= s.position(now)
                + MAX_AHEAD_FRAMES
        }),
{
    lemma_taken_accounts(s, now);
}

/// One call on a feeder.
pub enum HoldCall<T> {
    /// A block comes.
    Push { arrival: int, samples: Seq<T> },
    /// The feeder writes.
    Take { now: int },
}

/// A feeder after `calls`, one after the other from its start, and everything it wrote.
pub open spec fn after_calls<T>(base: int, lead_ms: int, calls: Seq<HoldCall<T>>) -> (
    HoldState<T>,
    Seq<Write<T>>,
)
    decreases calls.len(),
{
    if calls.len() == 0 {
        (HoldState::started(base, lead_ms), Seq::empty())
    } else {
        let (s, out) = after_calls(base, lead_ms, calls.drop_last());
        match calls.last() {
            HoldCall::Push { arrival, samples } => (s.pushed(arrival, samples), out),
            HoldCall::Take { now } => (s.taken(now).0, out + s.taken(now).1),
        }
    }
}

/// The blocks that came in `calls`, in order.
pub open spec fn blocks_pushed<T>(calls: Seq<HoldCall<T>>) -> Seq<(int, Seq<T>)>
    decreases calls.len(),
{
    if calls.len() == 0 {
        Seq::empty()
    } else {
        let before = blocks_pushed(calls.drop_last());
        match calls.last() {
            HoldCall::Push { arrival, samples } => before.push((arrival, samples)),
            HoldCall::Take { .. } => before,
        }
    }
}

/// Blocks came in order of their arrival.
pub open spec fn in_arrival_order<T>(blocks: Seq<(int, Seq<T>)>) -> bool {
    forall|i: int, j: int|
        0 <= i <= j < blocks.len() ==> (#[trigger] blocks[i]).0 <= (#[trigger] blocks[j]).0
}

/// Nothing was written after `now`.
pub open spec fn nothing_taken_after<T>(calls: Seq<HoldCall<T>>, now: int) -> bool {
    forall|i: int|
        0 <= i < calls.len() ==> (#[trigger] calls[i] matches HoldCall::Take { now: t } ==> t
            <= now)
}

proof fn lemma_total_frames_push<T>(held: Seq<(int, Seq<T>)>, block: (int, Seq<T>))
    ensures
        total_frames(held.push(block)) == total_frames(held) + block.1.len() / 2,
    decreases held.len(),
{
    if held.len() == 0 {
        assert(held.push(block).skip(1) =~= held);
    } else {
        assert(held.push(block)[0] == held[0]);
        assert(held.push(block).skip(1) =~= held.skip(1).push(block));
        lemma_total_frames_push(held.skip(1), block);
    }
}

proof fn lemma_pushed_accounts<T>(s: HoldState<T>, arrival: int, samples: Seq<T>)
    ensures
        ({
            let t = s.pushed(arrival, samples);
            t.skipped + total_frames(t.held) == s.skipped + total_frames(s.held) + samples.len() / 2
        }),
{
    if s.held.len() >= MAX_HELD_BLOCKS {
        lemma_total_frames_push(s.held.skip(1), (arrival, samples));
    } else {
        lemma_total_frames_push(s.held, (arrival, samples));
    }
}

/// Over a whole run, whatever comes and whenever it writes, the feeder loses no frame
/// uncounted and writes none twice: every frame that came was written, counted as
/// dropped, or is still held. What it has written is its preroll, the audio and the
/// silence; the silence is what it counts as padded; and it writes nothing empty and no
/// half frame.
pub proof fn law_a_run_accounts_for_every_frame<T>(
    base: int,
    lead_ms: int,
    calls: Seq<HoldCall<T>>,
)
    ensures
        ({
            let (s, out) = after_calls(base, lead_ms, calls);
            &&& total_frames(blocks_pushed(calls)) == content_frames(out) + s.skipped
                + total_frames(s.held)
            &&& s.written == base + silence_frames(out) + content_frames(out)
            &&& s.padded == silence_frames(out)
            &&& are_pieces(out)
        }),
    decreases calls.len(),
{
    if calls.len() > 0 {
        law_a_run_accounts_for_every_frame(base, lead_ms, calls.drop_last());
        let (s, out) = after_calls(base, lead_ms, calls.drop_last());
        match calls.last() {
            HoldCall::Push { arrival, samples } => {
                lemma_pushed_accounts(s, arrival, samples);
                lemma_total_frames_push(blocks_pushed(calls.drop_last()), (arrival, samples));
            },
            HoldCall::Take { now } => {
                lemma_taken_accounts(s, now);
                lemma_writes_add(out, s.taken(now).1);
            },
        }
    }
}

/// While the bound drops nothing, what is held is the tail of what came, and what was
/// written before it was due by the last time of a write.
proof fn lemma_held_is_the_tail<T>(
    base: int,
    lead_ms: int,
    calls: Seq<HoldCall<T>>,
    last: int,
)
    requires
        nothing_taken_after(calls, last),
    ensures
        ({
            let s = after_calls(base, lead_ms, calls).0;
            let all = blocks_pushed(calls);
            let gone = all.len() - s.held.len();
            &&& s.dropped >= 0
            &&& (s.base, s.lead_us, s.ahead_us) == (
                base,
                HoldState::<T>::started(base, lead_ms).lead_us,
                HoldState::<T>::started(base, lead_ms).ahead_us,
            )
            &&& s.dropped == 0 ==> {
                &&& 0 <= gone
                &&& s.held == all.skip(gone)
                &&& forall|i: int| 0 <= i < gone ==> s.due((#[trigger] all[i]).0) <= last
            }
        }),
    decreases calls.len(),
{
    if calls.len() == 0 {
        assert(blocks_pushed(calls).skip(0) =~= after_calls(base, lead_ms, calls).0.held);
    } else {
        let front = calls.drop_last();
        assert(nothing_taken_after(front, last)) by {
            assert forall|i: int| 0 <= i < front.len() implies (
            #[trigger] front[i] matches HoldCall::Take { now: t } ==> t <= last) by {
                assert(front[i] == calls[i]);
            }
        }
        lemma_held_is_the_tail(base, lead_ms, front, last);
        let s = after_calls(base, lead_ms, front).0;
        let t = after_calls(base, lead_ms, calls).0;
        let (before, all) = (blocks_pushed(front), blocks_pushed(calls));
        let gone = before.len() - s.held.len();
        match calls.last() {
            HoldCall::Push { arrival, samples } => {
                if t.dropped == 0 {
                    assert(t.held =~= all.skip(gone));
                    assert forall|i: int| 0 <= i < gone implies t.due((#[trigger] all[i]).0)
                        <= last by {
                        assert(all[i] == before[i]);
                    }
                }
            },
            HoldCall::Take { now } => {
                assert(calls[calls.len() - 1] == calls.last());
                lemma_taken_accounts(s, now);
                if t.dropped == 0 {
                    let more = s.held.len() - t.held.len();
                    assert(t.held =~= all.skip(gone + more));
                    assert forall|i: int| 0 <= i < gone + more implies t.due(
                        (#[trigger] all[i]).0,
                    ) <= last by {
                        if i >= gone {
                            assert(s.held[i - gone] == all[i]);
                        }
                    }
                }
            },
        }
    }
}

/// No block is written early and none that is due stays: where blocks come in order of
/// their arrival, the bound drops none and the clock does not go back, the blocks held
/// after a write at `now` are exactly the ones that came and are not due yet. And the
/// audio is at most 150 ms behind its position.
pub proof fn law_held_blocks_are_those_not_due<T>(
    base: int,
    lead_ms: int,
    calls: Seq<HoldCall<T>>,
    now: int,
)
    requires
        in_arrival_order(blocks_pushed(calls)),
        nothing_taken_after(calls, now),
        after_calls(base, lead_ms, calls).0.dropped == 0,
    ensures
        ({
            let s = after_calls(base, lead_ms, calls.push(HoldCall::Take { now })).0;
            let all = blocks_pushed(calls);
            let gone = all.len() - s.held.len();
            &&& 0 <= gone
            &&& s.held == all.skip(gone)
            &&& forall|i: int|
                0 <= i < all.len() ==> (s.due((#[trigger] all[i]).0) > now <==> gone <= i)
            &&& s.written + PAD_THRESHOLD_FRAMES >= s.position(now)
        }),
{
    let whole = calls.push(HoldCall::Take { now });
    assert(whole.drop_last() =~= calls);
    assert(nothing_taken_after(whole, now)) by {
        assert forall|i: int| 0 <= i < whole.len() implies (
        #[trigger] whole[i] matches HoldCall::Take { now: t } ==> t <= now) by {
            if i < calls.len() {
                assert(whole[i] == calls[i]);
            }
        }
    }
    lemma_held_is_the_tail(base, lead_ms, whole, now);
    let before = after_calls(base, lead_ms, calls).0;
    lemma_taken_accounts(before, now);
    let s = after_calls(base, lead_ms, whole).0;
    let all = blocks_pushed(calls);
    let gone = all.len() - s.held.len();
    assert forall|i: int| gone <= i < all.len() implies s.due((#[trigger] all[i]).0) > now by {
        assert(s.held[0] == all[gone]);
        assert(all[gone].0 <= all[i].0);
    }
}

/// `samples` is the end of the whole frames of `block`, or all of them.
pub open spec fn is_tail_of<T>(samples: Seq<T>, block: Seq<T>) -> bool {
    let whole = (block.len() / 2) * 2;
    samples.len() <= whole && samples == block.subrange(whole - samples.len(), whole as int)
}

/// The audio among `writes` comes out of `blocks`: each piece is the tail of a block,
/// each of another one, in the order of the blocks.
pub open spec fn come_from<T>(writes: Seq<Write<T>>, blocks: Seq<(int, Seq<T>)>) -> bool
    decreases writes.len(), blocks.len(),
{
    if writes.len() == 0 {
        true
    } else {
        match writes.last() {
            Write::Silence(_) => come_from(writes.drop_last(), blocks),
            Write::Samples(samples) => {
                &&& blocks.len() > 0
                &&& (come_from(writes, blocks.drop_last()) || (is_tail_of(
                    samples,
                    blocks.last().1,
                ) && come_from(writes.drop_last(), blocks.drop_last())))
            },
        }
    }
}

proof fn lemma_come_from_more<T>(
    writes: Seq<Write<T>>,
    blocks: Seq<(int, Seq<T>)>,
    block: (int, Seq<T>),
)
    requires
        come_from(writes, blocks),
    ensures
        come_from(writes, blocks.push(block)),
    decreases writes.len(),
{
    assert(blocks.push(block).drop_last() =~= blocks);
    if writes.len() > 0 && writes.last() is Silence {
        lemma_come_from_more(writes.drop_last(), blocks, block);
    }
}

proof fn lemma_come_from_both<T>(
    a: Seq<Write<T>>,
    x: Seq<(int, Seq<T>)>,
    b: Seq<Write<T>>,
    y: Seq<(int, Seq<T>)>,
)
    requires
        come_from(a, x),
        come_from(b, y),
    ensures
        come_from(a + b, x + y),
    decreases b.len(), y.len(),
{
    if b.len() == 0 {
        assert(a + b =~= a);
        if y.len() == 0 {
            assert(x + y =~= x);
        } else {
            lemma_come_from_both(a, x, b, y.drop_last());
            lemma_come_from_more(a, x + y.drop_last(), y.last());
            assert((x + y.drop_last()).push(y.last()) =~= x + y);
        }
    } else {
        assert((a + b).last() == b.last());
        assert((a + b).drop_last() =~= a + b.drop_last());
        if b.last() is Silence {
            lemma_come_from_both(a, x, b.drop_last(), y);
        } else {
            assert((x + y).last() == y.last());
            assert((x + y).drop_last() =~= x + y.drop_last());
            if come_from(b, y.drop_last()) {
                lemma_come_from_both(a, x, b, y.drop_last());
            } else {
                lemma_come_from_both(a, x, b.drop_last(), y.drop_last());
            }
        }
    }
}

proof fn lemma_pad_comes_from<T>(
    s: HoldState<T>,
    n: int,
    out: Seq<Write<T>>,
    blocks: Seq<(int, Seq<T>)>,
)
    requires
        come_from(out, blocks),
    ensures
        come_from(s.pad(n, out).1, blocks),
{
    assert(out.push(Write::Silence(n)).drop_last() =~= out);
}

proof fn lemma_place_comes_from<T>(
    s: HoldState<T>,
    arrival: int,
    samples: Seq<T>,
    out: Seq<Write<T>>,
    blocks: Seq<(int, Seq<T>)>,
)
    requires
        come_from(out, blocks),
    ensures
        come_from(s.place(arrival, samples, out).1, blocks.push((arrival, samples))),
{
    let target = s.target(arrival);
    let (s1, out1) = s.pad(s.snap(target), out);
    let (s2, out2) = s1.pad(pad_of(target, s1.written), out1);
    lemma_pad_comes_from(s, s.snap(target), out, blocks);
    lemma_pad_comes_from(s1, pad_of(target, s1.written), out1, blocks);
    let frames = (samples.len() / 2) as int;
    let skip = skip_of(target, s2.written, frames);
    let all = blocks.push((arrival, samples));
    assert(all.drop_last() =~= blocks);
    if skip < frames {
        let kept = samples.subrange(skip * 2, frames * 2);
        assert(is_tail_of(kept, samples));
        assert(out2.push(Write::Samples(kept)).drop_last() =~= out2);
    } else {
        lemma_come_from_more(out2, blocks, (arrival, samples));
    }
}

proof fn lemma_placed_comes_from<T>(
    s: HoldState<T>,
    now: int,
    out: Seq<Write<T>>,
    blocks: Seq<(int, Seq<T>)>,
)
    requires
        come_from(out, blocks),
    ensures
        ({
            let (t, after) = s.placed(now, out);
            let gone = s.held.len() - t.held.len();
            &&& 0 <= gone
            &&& t.held == s.held.skip(gone)
            &&& come_from(after, blocks + s.held.take(gone))
        }),
    decreases s.held.len(),
{
    if s.has_due(now) {
        let u = HoldState { held: s.held.skip(1), ..s };
        let (v, out1) = u.place(s.held[0].0, s.held[0].1, out);
        lemma_place_comes_from(u, s.held[0].0, s.held[0].1, out, blocks);
        assert(v.held == u.held);
        lemma_placed_comes_from(v, now, out1, blocks.push(s.held[0]));
        let t = v.placed(now, out1).0;
        let gone = v.held.len() - t.held.len();
        assert(blocks.push(s.held[0]) + v.held.take(gone) =~= blocks + s.held.take(gone + 1));
        assert(v.held.skip(gone) =~= s.held.skip(gone + 1));
    } else {
        assert(blocks + s.held.take(0) =~= blocks);
        assert(s.held.skip(0) =~= s.held);
    }
}

/// Over a whole run, all audio that is written came: each piece is a block that was
/// pushed, whole or without its oldest frames, sample for sample; no block is written
/// twice, and they leave in the order in which they came. What is held is what came
/// last.
pub proof fn law_the_written_audio_came_in_order<T>(
    base: int,
    lead_ms: int,
    calls: Seq<HoldCall<T>>,
)
    ensures
        ({
            let (s, out) = after_calls(base, lead_ms, calls);
            let all = blocks_pushed(calls);
            let gone = all.len() - s.held.len();
            &&& 0 <= gone
            &&& s.held == all.skip(gone)
            &&& come_from(out, all.take(gone))
        }),
    decreases calls.len(),
{
    let (t, after) = after_calls(base, lead_ms, calls);
    let all = blocks_pushed(calls);
    if calls.len() == 0 {
        assert(t.held =~= all.skip(0));
    } else {
        law_the_written_audio_came_in_order(base, lead_ms, calls.drop_last());
        let (s, out) = after_calls(base, lead_ms, calls.drop_last());
        let before = blocks_pushed(calls.drop_last());
        let gone = before.len() - s.held.len();
        match calls.last() {
            HoldCall::Push { arrival, samples } => {
                let more = all.len() - t.held.len();
                assert(t.held =~= all.skip(more));
                if more > gone {
                    lemma_come_from_more(out, before.take(gone), before[gone]);
                    assert(before.take(gone).push(before[gone]) =~= all.take(more));
                } else {
                    assert(before.take(gone) =~= all.take(more));
                }
            },
            HoldCall::Take { now } => {
                let none = Seq::<(int, Seq<T>)>::empty();
                lemma_placed_comes_from(s, now, Seq::empty(), none);
                let (u, placed) = s.placed(now, Seq::empty());
                let more = s.held.len() - u.held.len();
                lemma_pad_comes_from(
                    u,
                    pad_of(u.position(now), u.written),
                    placed,
                    none + s.held.take(more),
                );
                lemma_come_from_both(
                    out,
                    before.take(gone),
                    s.taken(now).1,
                    none + s.held.take(more),
                );
                assert(before.take(gone) + (none + s.held.take(more)) =~= all.take(gone + more));
                assert(t.held =~= all.skip(gone + more));
            },
        }
    }
}

/// A block that comes within 150 ms of its place leaves no gap: nothing is written
/// before it. One that would come earlier than that is moved onto its place by exactly
/// the silence that is missing, and so is one that comes after silence.
pub proof fn law_a_block_is_put_in_its_place<T>(s: HoldState<T>, arrival: int, samples: Seq<T>)
    requires
        samples.len() >= 2,
        s.written + samples.len() / 2 <= s.target(arrival) + 14_400,
    ensures
        ({
            let target = s.target(arrival);
            let (t, out) = s.place(arrival, samples, Seq::empty());
            let whole = Write::Samples(samples.subrange(0, ((samples.len() / 2) * 2) as int));
            &&& t.contiguous
            &&& target - s.written <= 7_200 ==> out == seq![whole] && t.written == s.written
                + samples.len() / 2
            &&& target - s.written > 7_200 && samples.len() / 2 <= 14_400 ==> out == seq![
                Write::Silence(target - s.written),
                whole,
            ] && t.written == target + samples.len() / 2
        }),
{
    let target = s.target(arrival);
    let (t, out) = s.place(arrival, samples, Seq::empty());
    let whole = Write::Samples(samples.subrange(0, ((samples.len() / 2) * 2) as int));
    if target - s.written <= 7_200 {
        assert(out =~= seq![whole]);
    } else if samples.len() / 2 <= 14_400 {
        assert(out =~= seq![Write::Silence(target - s.written), whole]);
    }
}

/// Audio has 48 frames a millisecond, and later is never fewer.
pub proof fn law_frames_follow_the_clock(ms: int, us: int, later: int)
    requires
        us <= later,
    ensures
        frames_of(1000 * ms) == 48 * ms,
        frames_of(us) <= frames_of(later),
{
    vstd::arithmetic::div_mod::lemma_div_is_ordered(us * 48, later * 48, 1000);
}

/// A feeder starts at its preroll, with nothing held, and writes at most 200 ms ahead
/// of the video, never more than the audio leads it.
pub proof fn law_a_feeder_starts_at_its_preroll<T>(base: int, lead_ms: int)
    requires
        lead_ms >= 0,
    ensures
        ({
            let s = HoldState::<T>::started(base, lead_ms);
            &&& s.written == base
            &&& s.held.len() == 0
            &&& s.target(0) == base + 48 * lead_ms
            &&& s.position(0) == base + 48 * (if lead_ms < 200 {
                lead_ms
            } else {
                200
            })
        }),
{
}

/// Past the bound a push drops the oldest block and keeps the new one.
pub proof fn law_a_push_keeps_the_newest<T>(s: HoldState<T>, arrival: int, samples: Seq<T>)
    requires
        s.held.len() <= 512,
    ensures
        ({
            let t = s.pushed(arrival, samples);
            &&& t.held.last() == (arrival, samples)
            &&& t.held.len() <= 512
            &&& s.held.len() < 512 ==> t.held.drop_last() == s.held && t.dropped == s.dropped
            &&& s.held.len() == 512 ==> t.held.drop_last() == s.held.skip(1) && t.dropped
                == s.dropped + 1
            &&& t.written == s.written
        }),
{
    let t = s.pushed(arrival, samples);
    assert(t.held.drop_last() =~= if s.held.len() < 512 {
        s.held
    } else {
        s.held.skip(1)
    });
}

} // verus!
