//! The audio thread of a pipeline that plays on the sender's clock.
//!
//! Audio leaves in blocks on the wall-clock grid, silence where there is none, so
//! that the end of a song or a stall never stops the stream.

use vstd::prelude::*;

verus! {

/// One minute (100 ns).
pub const MINUTE_100NS: i64 = 600_000_000;

/// Time between two looks whether the audio has run out.
pub const DRAIN_POLL_MS: u64 = 5;

/// Where the audio of a frame goes.
#[derive(Debug, Clone)]
pub struct AudioRoute<T> {
    /// Blocks for the audio thread, in order.
    pub push: Vec<T>,
    /// Blocks that leave with the picture.
    pub submit: Vec<T>,
}

/// With an audio thread every block goes to it and none leaves with the picture;
/// without one all of them do.
pub fn push_or_collect_audio<T>(emitter: bool, audio: Vec<T>) -> (r: AudioRoute<T>)
    ensures
        emitter ==> r.push == audio && r.submit@ == Seq::<T>::empty(),
        !emitter ==> r.submit == audio && r.push@ == Seq::<T>::empty(),
{
    if emitter {
        AudioRoute { push: audio, submit: Vec::new() }
    } else {
        AudioRoute { push: Vec::new(), submit: audio }
    }
}

/// What the catch-up decides on.
#[derive(Debug, Clone, Copy, PartialEq, Eq, Structural)]
pub struct LateQuery {
    /// Audio that waits (ms).
    pub depth_ms: u64,
    /// The picture lies so near the end that little audio is no lag.
    pub at_end: bool,
}

/// Whether the catch-up is asked about a picture, and what. Without an audio thread
/// no picture is late. `target_ms` is the audio that should wait.
pub fn is_late_frame(
    ring_depth_ms: Option<u64>,
    target_ms: u64,
    video_ts_ms: u64,
    duration_ms: u64,
) -> (r: Option<LateQuery>)
    ensures
        r == match ring_depth_ms {
            None => None,
            Some(depth_ms) => Some(
                LateQuery {
                    depth_ms,
                    at_end: video_ts_ms + target_ms >= duration_ms || video_ts_ms + target_ms
                        > u64::MAX,
                },
            ),
        },
{
    match ring_depth_ms {
        None => None,
        Some(depth_ms) => Some(
            LateQuery { depth_ms, at_end: video_ts_ms.saturating_add(target_ms) >= duration_ms },
        ),
    }
}

/// Whether to wait on for the audio of a song to run out: it has not, and the time
/// for it is not over.
pub fn keep_draining(now_ms: u64, deadline_ms: u64, drained: bool) -> (r: bool)
    ensures
        r <==> now_ms < deadline_ms && !drained,
{
    now_ms < deadline_ms && !drained
}

/// How to wait for a block's time.
#[derive(Debug, Clone, Copy, PartialEq, Eq, Structural)]
pub enum BlockWait {
    /// It has come.
    Now,
    /// Sleep this long, then spin.
    Sleep { coarse_ns: u64 },
    /// Spin at once.
    Spin,
}

/// Plan the wait at `now_100ns` for `target_100ns`: sleep up to `margin_100ns` before
/// it, and spin the rest. A time in the past is not waited for, so that a late thread
/// catches up block by block.
pub fn plan_block_wait(now_100ns: i64, target_100ns: i64, margin_100ns: i64) -> (r: BlockWait)
    requires
        0 <= margin_100ns,
        target_100ns - now_100ns <= i64::MAX / 100,
    ensures
        ({
            let delta = target_100ns - now_100ns;
            r == if delta <= 0 {
                BlockWait::Now
            } else if delta > margin_100ns {
                BlockWait::Sleep { coarse_ns: ((delta - margin_100ns) * 100) as u64 }
            } else {
                BlockWait::Spin
            }
        }),
{
    if target_100ns <= now_100ns {
        return BlockWait::Now;
    }
    let delta: i64 = target_100ns - now_100ns;
    if delta > margin_100ns {
        BlockWait::Sleep { coarse_ns: ((delta - margin_100ns) * 100) as u64 }
    } else {
        BlockWait::Spin
    }
}

/// How far past its wake-up time a sleep came back.
pub fn sleep_overshoot(now_100ns: i64, target_100ns: i64, margin_100ns: i64) -> (r: i64)
    requires
        i64::MIN <= target_100ns - margin_100ns <= i64::MAX,
        i64::MIN <= now_100ns - (target_100ns - margin_100ns) <= i64::MAX,
    ensures
        r == now_100ns - (target_100ns - margin_100ns),
{
    now_100ns - (target_100ns - margin_100ns)
}

/// What a block held.
#[derive(Debug, Clone, Copy, PartialEq, Eq, Structural)]
pub enum EmittedBlock {
    Silence,
    Audio,
}

/// What the audio thread logs.
#[derive(Debug, Clone, Copy, PartialEq, Eq, Structural)]
pub struct EmitLog {
    /// The minute that was logged last.
    pub last_minute: Option<i64>,
    /// Silent blocks since the last audio.
    pub silence_run: u64,
    /// The longest send of this minute (100 ns).
    pub call_max_100ns: i64,
}

/// What to log after a block.
#[derive(Debug, Clone, Copy, PartialEq, Eq, Structural)]
pub struct EmitReport {
    /// Audio came back after this many silent blocks.
    pub resumed_after: Option<u64>,
    /// A minute is over; its longest send (100 ns).
    pub minute_call_max_100ns: Option<i64>,
}

/// The minute of a time, toward zero.
pub open spec fn minute_of(t: int) -> int {
    if t >= 0 {
        t / (MINUTE_100NS as int)
    } else {
        -((-t) / (MINUTE_100NS as int))
    }
}

fn minute(t: i64) -> (r: i64)
    ensures
        r == minute_of(t as int),
{
    if t >= 0 {
        t / MINUTE_100NS
    } else {
        let up: i128 = -(t as i128);
        (-(up / MINUTE_100NS as i128)) as i64
    }
}

impl EmitLog {
    pub fn new() -> (r: Self)
        ensures
            r == (EmitLog { last_minute: None, silence_run: 0, call_max_100ns: 0 }),
    {
        EmitLog { last_minute: None, silence_run: 0, call_max_100ns: 0 }
    }

    /// The longest send, counting one from `start` to `end`.
    pub open spec fn call_max_with(self, start: i64, end: i64) -> int {
        if end - start > self.call_max_100ns {
            end - start
        } else {
            self.call_max_100ns as int
        }
    }

    /// The log after a block that went out between `emit` and `done`.
    pub open spec fn after_block(self, block: EmittedBlock, emit: i64, done: i64) -> EmitLog {
        let now = minute_of(emit as int) as i64;
        EmitLog {
            last_minute: Some(now),
            silence_run: if block == EmittedBlock::Silence {
                (self.silence_run + 1) as u64
            } else {
                0
            },
            call_max_100ns: if self.last_minute == Some(now) {
                self.call_max_with(emit, done) as i64
            } else {
                0
            },
        }
    }

    /// What to log of a block that went out between `emit` and `done`.
    pub open spec fn report_of(self, block: EmittedBlock, emit: i64, done: i64) -> EmitReport {
        EmitReport {
            resumed_after: if block == EmittedBlock::Audio && self.silence_run > 0 {
                Some(self.silence_run)
            } else {
                None
            },
            minute_call_max_100ns: if self.last_minute == Some(minute_of(emit as int) as i64) {
                None
            } else {
                Some(self.call_max_with(emit, done) as i64)
            },
        }
    }

    /// A block went out between `emit_100ns` and `done_100ns`: count it, and say what
    /// to log of it.
    pub fn emitted(&mut self, block: EmittedBlock, emit_100ns: i64, done_100ns: i64) -> (r:
        EmitReport)
        requires
            i64::MIN <= done_100ns - emit_100ns <= i64::MAX,
            old(self).silence_run < u64::MAX,
        ensures
            *final(self) == old(self).after_block(block, emit_100ns, done_100ns),
            r == old(self).report_of(block, emit_100ns, done_100ns),
            final(self).last_minute == Some(minute_of(emit_100ns as int) as i64),
            final(self).silence_run == if block == EmittedBlock::Silence {
                old(self).silence_run + 1
            } else {
                0
            },
            r.resumed_after == if block == EmittedBlock::Audio && old(self).silence_run > 0 {
                Some(old(self).silence_run)
            } else {
                None
            },
            ({
                let new_minute = old(self).last_minute != Some(minute_of(emit_100ns as int) as i64);
                let call_max = old(self).call_max_with(emit_100ns, done_100ns) as i64;
                &&& r.minute_call_max_100ns == if new_minute {
                    Some(call_max)
                } else {
                    None
                }
                &&& final(self).call_max_100ns == if new_minute {
                    0
                } else {
                    call_max
                }
            }),
    {
        let call: i64 = done_100ns - emit_100ns;
        if call > self.call_max_100ns {
            self.call_max_100ns = call;
        }
        let resumed_after: Option<u64> = match block {
            EmittedBlock::Silence => {
                self.silence_run = self.silence_run + 1;
                None
            },
            EmittedBlock::Audio => {
                let run: u64 = self.silence_run;
                self.silence_run = 0;
                if run > 0 {
                    Some(run)
                } else {
                    None
                }
            },
        };
        let this_minute: i64 = minute(emit_100ns);
        let new_minute: bool = match self.last_minute {
            Some(m) => m != this_minute,
            None => true,
        };
        self.last_minute = Some(this_minute);
        let minute_call_max_100ns: Option<i64> = if new_minute {
            let max: i64 = self.call_max_100ns;
            self.call_max_100ns = 0;
            Some(max)
        } else {
            None
        };
        EmitReport { resumed_after, minute_call_max_100ns }
    }
}

/// Every block of a frame goes one way, in order: with an audio thread to it, without
/// one with the picture.
pub proof fn law_no_block_is_lost_on_its_way<T>(emitter: bool, audio: Vec<T>, r: AudioRoute<T>)
    requires
        call_ensures(push_or_collect_audio::<T>, (emitter, audio), r),
    ensures
        r.push@ + r.submit@ == audio@,
        emitter ==> r.submit@.len() == 0,
        !emitter ==> r.push@.len() == 0,
{
    assert(r.push@ + r.submit@ =~= audio@);
}

/// A wait ends on its time: what is slept and the margin that is spun add up to what was
/// left, and a time that has come is not waited for.
pub proof fn law_sleep_and_spin_add_up(now: i64, target: i64, margin: i64, wait: BlockWait)
    requires
        call_ensures(plan_block_wait, (now, target, margin), wait),
        0 <= margin,
        target - now <= i64::MAX / 100,
    ensures
        wait == BlockWait::Now <==> target <= now,
        wait matches BlockWait::Sleep { coarse_ns } ==> now + coarse_ns / 100 + margin == target
            && coarse_ns > 0 && coarse_ns % 100 == 0,
        wait == BlockWait::Spin <==> now < target <= now + margin,
{
    let delta = target - now;
    if delta > margin {
        assert(((delta - margin) * 100) / 100 == delta - margin);
    }
}

/// A sleep that ends on its wake-up time has no overshoot, and each unit later is one
/// more.
pub proof fn law_overshoot_counts_from_the_wake_up(target: i64, margin: i64, late: i64, r: i64)
    requires
        i64::MIN <= target - margin + late <= i64::MAX,
        call_ensures(sleep_overshoot, ((target - margin + late) as i64, target, margin), r),
    ensures
        r == late,
{
}

/// A picture is late only where there is an audio thread, and lies at the end exactly
/// when less audio than the target is left of the song.
pub proof fn law_when_the_catch_up_is_asked(
    depth: Option<u64>,
    target_ms: u64,
    ts_ms: u64,
    duration_ms: u64,
    r: Option<LateQuery>,
)
    requires
        call_ensures(is_late_frame, (depth, target_ms, ts_ms, duration_ms), r),
    ensures
        r is Some <==> depth is Some,
        r matches Some(q) ==> Some(q.depth_ms) == depth && (q.at_end <==> duration_ms - ts_ms
            <= target_ms || ts_ms + target_ms > u64::MAX),
{
}

/// A minute holds sixty seconds, and the count of minutes goes up by one with each.
pub proof fn law_minutes_follow_each_other(t: int)
    requires
        t >= 0,
    ensures
        minute_of(t) * 600_000_000 <= t < (minute_of(t) + 1) * 600_000_000,
        minute_of(t + 600_000_000) == minute_of(t) + 1,
        minute_of(-t) == -minute_of(t),
{
}

/// A run of silence counts its blocks and is reported once, with its length, by the
/// block of audio that ends it.
pub proof fn law_a_run_of_silence_is_reported_once(log: EmitLog, emit: i64, done: i64)
    requires
        log.silence_run < u64::MAX,
    ensures
        log.after_block(EmittedBlock::Silence, emit, done).silence_run == log.silence_run + 1,
        log.report_of(EmittedBlock::Silence, emit, done).resumed_after is None,
        log.after_block(EmittedBlock::Audio, emit, done).silence_run == 0,
        log.silence_run > 0 ==> log.report_of(EmittedBlock::Audio, emit, done).resumed_after
            == Some(log.silence_run),
        log.silence_run == 0 ==> log.report_of(EmittedBlock::Audio, emit, done).resumed_after
            is None,
{
}

/// The longest send is reported by the first block of another minute, that block's own
/// among them, and counted anew from there; within a minute it never falls.
pub proof fn law_the_longest_send_of_a_minute(
    log: EmitLog,
    block: EmittedBlock,
    emit: i64,
    done: i64,
)
    requires
        log.call_max_100ns >= 0,
        i64::MIN <= done - emit <= i64::MAX,
    ensures
        ({
            let after = log.after_block(block, emit, done);
            let report = log.report_of(block, emit, done).minute_call_max_100ns;
            let same = log.last_minute == Some(minute_of(emit as int) as i64);
            &&& after.last_minute == Some(minute_of(emit as int) as i64)
            &&& report is Some <==> !same
            &&& same ==> after.call_max_100ns >= log.call_max_100ns && after.call_max_100ns >= done
                - emit && (after.call_max_100ns == log.call_max_100ns || after.call_max_100ns
                == done - emit)
            &&& !same ==> after.call_max_100ns == 0 && report->0 >= log.call_max_100ns && report->0
                >= done - emit && (report->0 == log.call_max_100ns || report->0 == done - emit)
        }),
{
}

/// A song is waited for until its audio has run out, and not past the deadline.
pub proof fn law_draining_ends(now_ms: u64, deadline_ms: u64, drained: bool, on: bool)
    requires
        call_ensures(keep_draining, (now_ms, deadline_ms, drained), on),
    ensures
        drained ==> !on,
        now_ms >= deadline_ms ==> !on,
        !drained && now_ms < deadline_ms ==> on,
{
}

} // verus!
