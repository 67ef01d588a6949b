//! The program sender: what goes out for each program boundary, and when the
//! sender thread wakes, ticks its clock and polls its receivers.

use crate::genlock::{
    floor_boundary_100ns, lag_slots_100ns, strict_next_boundary_100ns, GENLOCK_GRID_FPS,
};
use crate::program_bus::{ProgramBus, ProgramJob, Take};
use vstd::prelude::*;

verus! {

/// The standby black's size.
pub const PROGRAM_STANDBY_W: u32 = 1920;

pub const PROGRAM_STANDBY_H: u32 = 1080;

/// The silent block: 48 kHz stereo, one grid slot.
pub const PROGRAM_AUDIO_RATE_HZ: u32 = 48_000;

pub const PROGRAM_AUDIO_CHANNELS: u32 = 2;

/// Poll the receiver count every this many submitted pairs (about 1 s).
pub const CONN_POLL_EVERY: u32 = 30;

/// The sender checks for missed boundaries this long (1 ms) after each one.
pub const CHECK_AFTER_BOUNDARY_100NS: i64 = 10_000;

/// Most clock ticks one wake may owe: a long stall catches up in bounded work.
pub const MAX_TICKS_PER_WAKE: i64 = 8;

/// Samples of one channel in one slot of the grid.
pub fn samples_per_boundary(rate_hz: i64, fps: i64) -> (r: i64)
    requires
        rate_hz >= 0,
        fps > 0,
    ensures
        r == rate_hz as int / fps as int,
        0 <= r <= rate_hz,
{
    proof {
        assert(0 <= rate_hz as int / fps as int <= rate_hz) by (nonlinear_arith)
            requires
                rate_hz >= 0,
                fps > 0,
        ;
    }
    rate_hz / fps
}

/// One audio and video pair for the program sender, audio first.
pub struct ProgramPair<V, A> {
    pub width: u32,
    pub height: u32,
    pub stride: u32,
    /// The source's picture; `None` is the program's own black.
    pub video: Option<V>,
    /// The source's audio; `None` is the program's one silent block.
    pub audio: Option<Vec<A>>,
    pub video_tc_100ns: i64,
    pub audio_tc_100ns: i64,
}

/// What the program sends of its own when a boundary is missed: an NV12 black
/// of this size and one silent block.
#[derive(Clone, Copy, Debug, PartialEq, Eq, Structural)]
pub struct ProgramOutput {
    pub standby_w: u32,
    pub standby_h: u32,
}

impl ProgramOutput {
    pub fn new(standby_w: u32, standby_h: u32) -> (r: Self)
        ensures
            r.standby_w == standby_w,
            r.standby_h == standby_h,
    {
        ProgramOutput { standby_w, standby_h }
    }

    /// Values in the silent block: one slot of interleaved stereo.
    pub fn silence_len(&self) -> (r: usize)
        ensures
            r == 3200,
    {
        let spc: i64 = samples_per_boundary(PROGRAM_AUDIO_RATE_HZ as i64, GENLOCK_GRID_FPS);
        assert(spc == 48_000int / 30int);
        assert(PROGRAM_AUDIO_CHANNELS as usize == 2 && spc == 1600);
        spc as usize * PROGRAM_AUDIO_CHANNELS as usize
    }

    /// Bytes of the standby black (NV12: 12 bits per pixel).
    pub fn black_len(&self) -> (r: usize)
        requires
            self.standby_w * self.standby_h * 3 <= usize::MAX,
        ensures
            r == (self.standby_w * self.standby_h * 3) / 2,
    {
        proof {
            assert(0 <= self.standby_w * self.standby_h <= self.standby_w * self.standby_h * 3)
                by (nonlinear_arith)
                requires
                    0 <= self.standby_w,
                    0 <= self.standby_h,
            ;
        }
        (self.standby_w as usize * self.standby_h as usize * 3) / 2
    }

    /// The pair for one program boundary. A forwarded source job keeps its own
    /// picture, audio and stamps; a standby pair is stamped on its boundary, its
    /// audio at the emit instant `audio_now_100ns`.
    pub fn submit<V, A>(&self, job: ProgramJob<V, A>, audio_now_100ns: i64) -> (r: ProgramPair<V, A>)
        ensures
            r.video_tc_100ns == job.stamp(),
            match job {
                ProgramJob::Source(j) => {
                    &&& r.width == j.width
                    &&& r.height == j.height
                    &&& r.stride == j.stride
                    &&& r.video == Some(j.video)
                    &&& r.audio == Some(j.audio)
                    &&& r.audio_tc_100ns == j.audio_tc_100ns
                },
                ProgramJob::Standby { .. } => {
                    &&& r.width == self.standby_w
                    &&& r.height == self.standby_h
                    &&& r.stride == self.standby_w
                    &&& r.video == None::<V>
                    &&& r.audio == None::<Vec<A>>
                    &&& r.audio_tc_100ns == audio_now_100ns
                },
            },
    {
        match job {
            ProgramJob::Source(j) => ProgramPair {
                width: j.width,
                height: j.height,
                stride: j.stride,
                video: Some(j.video),
                audio: Some(j.audio),
                video_tc_100ns: j.video_tc_100ns,
                audio_tc_100ns: j.audio_tc_100ns,
            },
            ProgramJob::Standby { stamp_100ns } => ProgramPair {
                width: self.standby_w,
                height: self.standby_h,
                stride: self.standby_w,
                video: None,
                audio: None,
                video_tc_100ns: stamp_100ns,
                audio_tc_100ns: audio_now_100ns,
            },
        }
    }
}

/// Ticks the program's wall clock once per grid boundary passed, however often
/// the sender wakes: the same cadence as the sources' clocks, so that all of
/// them slew a clock step in at the same pace.
#[derive(Clone, Copy, Debug, PartialEq, Eq, Structural)]
pub struct BoundaryTicker {
    /// The boundary counted from.
    pub last: Option<i64>,
}

impl Default for BoundaryTicker {
    fn default() -> (r: Self)
        ensures
            r.last == None::<i64>,
    {
        BoundaryTicker { last: None }
    }
}

impl BoundaryTicker {
    /// Grid boundaries passed from `last` to `now`, at most the bound of one
    /// wake; none on the first wake and none on a backward clock read.
    pub open spec fn owed(self, now: int) -> int {
        match self.last {
            None => 0,
            Some(l) => {
                let lag = crate::program_bus::lag_slots(
                    l as int,
                    crate::program_bus::floor_slot(now),
                );
                if lag < MAX_TICKS_PER_WAKE {
                    lag
                } else {
                    MAX_TICKS_PER_WAKE as int
                }
            },
        }
    }

    /// The ticker after a wake at `now`.
    pub open spec fn after_wake(self, now: int) -> BoundaryTicker {
        if self.owed(now) > 0 || self.last is None {
            BoundaryTicker { last: Some(crate::program_bus::floor_slot(now) as i64) }
        } else {
            self
        }
    }

    /// The clock ticks owed at `now_100ns`. The anchor moves to the floor of
    /// `now_100ns` on the first call and whenever some are owed.
    pub fn advance(&mut self, now_100ns: i64) -> (r: i64)
        requires
            crate::program_bus::in_time(now_100ns as int),
            old(self).last matches Some(l) ==> l >= -crate::program_bus::TIME_LIMIT_100NS
                - crate::genlock::UNITS_PER_SECOND,
        ensures
            r == old(self).owed(now_100ns as int),
            *final(self) == old(self).after_wake(now_100ns as int),
            final(self).last == if r > 0 || old(self).last is None {
                Some(crate::program_bus::floor_slot(now_100ns as int) as i64)
            } else {
                old(self).last
            },
            final(self).last matches Some(l) ==> l >= -crate::program_bus::TIME_LIMIT_100NS
                - crate::genlock::UNITS_PER_SECOND,
    {
        let floor: i64 = floor_boundary_100ns(now_100ns, GENLOCK_GRID_FPS);
        proof {
            crate::genlock::law_next_is_near(now_100ns as int, GENLOCK_GRID_FPS as int);
            assert(crate::genlock::interval_of(30) == 333_333);
        }
        let lag: i64 = match self.last {
            Some(last) => lag_slots_100ns(last, floor, GENLOCK_GRID_FPS),
            None => 0,
        };
        let owed: i64 = if lag < MAX_TICKS_PER_WAKE {
            lag
        } else {
            MAX_TICKS_PER_WAKE
        };
        if owed > 0 || self.last.is_none() {
            self.last = Some(floor);
        }
        owed
    }
}

/// How long (ns) the sender waits for a queued boundary before it checks for
/// missed ones again: until 1 ms past the next grid boundary.
pub fn next_check_wait(now_100ns: i64) -> (r: u64)
    requires
        crate::program_bus::in_time(now_100ns as int),
    ensures
        r == (crate::program_bus::next_slot(now_100ns as int) + CHECK_AFTER_BOUNDARY_100NS
            - now_100ns) * 100,
{
    proof {
        crate::genlock::law_next_is_near(now_100ns as int, GENLOCK_GRID_FPS as int);
        assert(crate::genlock::interval_of(30) == 333_333);
    }
    let due: i64 = strict_next_boundary_100ns(now_100ns, GENLOCK_GRID_FPS)
        + CHECK_AFTER_BOUNDARY_100NS;
    (due - now_100ns) as u64 * 100
}

/// What the sender thread does before it waits.
#[derive(Clone, Copy, Debug, PartialEq, Eq, Structural)]
pub struct SenderWake {
    /// Ticks of the wall clock.
    pub ticks: i64,
    /// Longest wait (ns) for a queued boundary.
    pub wait_ns: u64,
}

/// What the sender thread does with what it was handed.
pub enum SenderStep<V, A> {
    /// Submit the job, record it, and then call [`ProgramLoop::submitted`].
    Submit(ProgramJob<V, A>),
    /// Check again.
    Again,
    /// Flush the sender and end.
    Exit,
}

/// The sender thread's own state.
#[derive(Clone, Copy, Debug, PartialEq, Eq, Structural)]
pub struct ProgramLoop {
    pub ticker: BoundaryTicker,
    /// Pairs submitted since the receivers were last counted.
    pub since_conn_poll: u32,
}

impl ProgramLoop {
    pub open spec fn wf(self) -> bool {
        &&& self.since_conn_poll <= CONN_POLL_EVERY
        &&& self.ticker.last matches Some(l) ==> l >= -crate::program_bus::TIME_LIMIT_100NS
            - crate::genlock::UNITS_PER_SECOND
    }

    /// The receivers are counted on the first pair.
    pub fn new() -> (r: Self)
        ensures
            r.wf(),
            r.since_conn_poll == CONN_POLL_EVERY,
            r.ticker.last == None::<i64>,
    {
        ProgramLoop { ticker: BoundaryTicker { last: None }, since_conn_poll: CONN_POLL_EVERY }
    }

    /// One wake at `now_100ns`: the ticks owed, the missed boundaries released,
    /// and the wait until the next check.
    pub fn wake<V, A>(&mut self, bus: &mut ProgramBus<V, A>, now_100ns: i64) -> (r: SenderWake)
        requires
            old(self).wf(),
            old(bus).wf(),
            old(bus).core@.timely(),
            old(bus).core@.health.room(crate::program_bus::MAX_RELEASE_STEPS as int),
            crate::program_bus::in_time(now_100ns as int),
        ensures
            final(self).wf(),
            final(self).since_conn_poll == old(self).since_conn_poll,
            r.ticks == old(self).ticker.owed(now_100ns as int),
            final(self).ticker == old(self).ticker.after_wake(now_100ns as int),
            final(self).ticker.last == if r.ticks > 0 || old(self).ticker.last is None {
                Some(crate::program_bus::floor_slot(now_100ns as int) as i64)
            } else {
                old(self).ticker.last
            },
            r.wait_ns == (crate::program_bus::next_slot(now_100ns as int)
                + CHECK_AFTER_BOUNDARY_100NS - now_100ns) * 100,
            final(bus).wf(),
            final(bus).stop == old(bus).stop,
            old(bus).core@.aligned() ==> final(bus).core@.aligned(),
            final(bus).core@ == old(bus).core@.released(
                now_100ns as int,
                crate::program_bus::MAX_RELEASE_STEPS as nat,
            ),
    {
        let ticks: i64 = self.ticker.advance(now_100ns);
        bus.release_due(now_100ns);
        SenderWake { ticks, wait_ns: next_check_wait(now_100ns) }
    }

    /// What to do with what the bus handed out after the wait.
    pub fn step<V, A>(&self, take: Take<V, A>) -> (r: SenderStep<V, A>)
        ensures
            match take {
                Take::Job(job) => r == SenderStep::<V, A>::Submit(job),
                Take::Idle => r == SenderStep::<V, A>::Again,
                Take::Stopped => r == SenderStep::<V, A>::Exit,
            },
    {
        match take {
            Take::Job(job) => SenderStep::Submit(job),
            Take::Idle => SenderStep::Again,
            Take::Stopped => SenderStep::Exit,
        }
    }

    /// After one more pair: whether to count the receivers now, and the thread's state.
    pub open spec fn after_pair(self) -> (bool, ProgramLoop) {
        if self.since_conn_poll + 1 >= CONN_POLL_EVERY {
            (true, ProgramLoop { since_conn_poll: 0, ..self })
        } else {
            (false, ProgramLoop { since_conn_poll: (self.since_conn_poll + 1) as u32, ..self })
        }
    }

    /// One pair was submitted. Returns whether to count the receivers now.
    pub fn submitted(&mut self) -> (r: bool)
        requires
            old(self).wf(),
        ensures
            final(self).wf(),
            (r, *final(self)) == old(self).after_pair(),
            final(self).ticker == old(self).ticker,
            r <==> old(self).since_conn_poll + 1 >= CONN_POLL_EVERY,
            final(self).since_conn_poll == if r {
                0
            } else {
                old(self).since_conn_poll + 1
            },
    {
        self.since_conn_poll = self.since_conn_poll + 1;
        if self.since_conn_poll >= CONN_POLL_EVERY {
            self.since_conn_poll = 0;
            true
        } else {
            false
        }
    }
}

/// Between two boundaries of the grid the clock ticks once for each boundary
/// passed, however often the sender wakes in between: two wakes owe together
/// what one wake at the later instant would owe, while neither is capped.
pub proof fn law_ticks_count_boundaries_not_wakes(anchor: int, first: int, second: int)
    requires
        0 <= first - anchor,
        first <= second,
        second - anchor < MAX_TICKS_PER_WAKE,
    ensures
        ({
            let b = |k: int| crate::genlock::boundary(k, GENLOCK_GRID_FPS as int);
            let lag = |from: int, to: int| crate::program_bus::lag_slots(b(from), b(to));
            lag(anchor, first) + lag(first, second) == lag(anchor, second) && lag(anchor, second)
                == second - anchor
        }),
{
    crate::genlock::law_lag_counts_slots(anchor, first);
    crate::genlock::law_lag_counts_slots(first, second);
    crate::genlock::law_lag_counts_slots(anchor, second);
}

/// What leaves for a forwarded boundary is the source's own: its picture with its size
/// and stride, its audio and both its stamps, whenever it leaves.
pub proof fn law_a_forwarded_pair_is_the_sources_own<V, A>(
    output: ProgramOutput,
    job: crate::submit_handoff::SubmitJob<V, A>,
    audio_now_100ns: i64,
    pair: ProgramPair<V, A>,
)
    requires
        call_ensures(
            ProgramOutput::submit::<V, A>,
            (&output, ProgramJob::Source(job), audio_now_100ns),
            pair,
        ),
    ensures
        pair.width == job.width,
        pair.height == job.height,
        pair.stride == job.stride,
        pair.video == Some(job.video),
        pair.audio == Some(job.audio),
        pair.video_tc_100ns == job.video_tc_100ns,
        pair.audio_tc_100ns == job.audio_tc_100ns,
{
}

/// What leaves for a missed boundary is the program's own black, silent, stamped on that
/// boundary; its audio is stamped with the time at which it leaves.
pub proof fn law_a_missed_boundary_is_black_and_silent<V, A>(
    output: ProgramOutput,
    stamp_100ns: i64,
    audio_now_100ns: i64,
    pair: ProgramPair<V, A>,
)
    requires
        call_ensures(
            ProgramOutput::submit::<V, A>,
            (&output, ProgramJob::Standby { stamp_100ns }, audio_now_100ns),
            pair,
        ),
    ensures
        pair.width == output.standby_w,
        pair.height == output.standby_h,
        pair.stride == output.standby_w,
        pair.video is None,
        pair.audio is None,
        pair.video_tc_100ns == stamp_100ns,
        pair.audio_tc_100ns == audio_now_100ns,
{
}

/// The silent block lasts one slot of the grid, and the black holds a byte and a half
/// for each pixel.
pub proof fn law_the_standby_pair_fills_one_slot(
    output: ProgramOutput,
    silence: usize,
    black: usize,
)
    requires
        call_ensures(ProgramOutput::silence_len, (&output,), silence),
        call_ensures(ProgramOutput::black_len, (&output,), black),
        output.standby_w % 2 == 0,
    ensures
        silence * 30 == 48_000 * 2,
        2 * black == output.standby_w * output.standby_h * 3,
{
    let half = output.standby_w / 2;
    assert((2 * half) * output.standby_h * 3 == 2 * (half * output.standby_h * 3))
        by (nonlinear_arith);
}

/// The sender wakes one millisecond after the next boundary of the grid: none lies
/// between now and that one.
pub proof fn law_the_sender_wakes_after_the_next_boundary(now: i64, wait_ns: u64, other: int)
    requires
        call_ensures(next_check_wait, (now,), wait_ns),
        crate::program_bus::in_time(now as int),
    ensures
        wait_ns % 100 == 0,
        ({
            let next = now + wait_ns / 100 - 10_000;
            &&& now < next
            &&& crate::program_bus::is_boundary(next)
            &&& crate::program_bus::is_boundary(other) && now < other ==> next <= other
        }),
{
    crate::genlock::law_next_is_near(now as int, GENLOCK_GRID_FPS as int);
    crate::genlock::law_next_is_the_first_boundary_after(now as int, GENLOCK_GRID_FPS as int);
    let next = crate::program_bus::next_slot(now as int);
    assert(wait_ns == (next + 10_000 - now) * 100);
    assert(wait_ns / 100 == next + 10_000 - now);
}

/// The clock ticks once for each boundary passed since the anchor, at most eight times
/// in one wake; never on the first wake, and never when the clock went back.
pub proof fn law_a_wake_owes_the_boundaries_passed(anchor: int, reached: int)
    requires
        -0x1000_0000_0000 <= anchor <= 0x1000_0000_0000,
        -0x1000_0000_0000 <= reached <= 0x1000_0000_0000,
        reached - anchor < 300_000,
    ensures
        ({
            let b = |k: int| crate::genlock::boundary(k, GENLOCK_GRID_FPS as int);
            let ticker = BoundaryTicker { last: Some(b(anchor) as i64) };
            &&& reached <= anchor ==> ticker.owed(b(reached)) == 0
            &&& anchor < reached <= anchor + 8 ==> ticker.owed(b(reached)) == reached - anchor
            &&& reached > anchor + 8 ==> ticker.owed(b(reached)) == 8
            &&& (BoundaryTicker { last: None }).owed(b(reached)) == 0
        }),
{
    let fps = GENLOCK_GRID_FPS as int;
    let (x, y) = (crate::genlock::boundary(anchor, fps), crate::genlock::boundary(reached, fps));
    assert(x as i64 == x);
    crate::genlock::law_floor_is_the_last_boundary(y, fps);
    assert(crate::genlock::on_grid(y, fps));
    assert(crate::program_bus::floor_slot(y) == y);
    if anchor <= reached {
        crate::genlock::law_lag_counts_slots(anchor, reached);
    } else {
        crate::genlock::law_boundaries_ascend(reached, anchor, fps);
    }
}

/// The sender thread after `n` pairs.
pub open spec fn after_pairs(s: ProgramLoop, n: nat) -> ProgramLoop
    decreases n,
{
    if n == 0 {
        s
    } else {
        after_pairs(s, (n - 1) as nat).after_pair().1
    }
}

/// The receivers are counted on the first pair and on every thirtieth after it, and on
/// no other.
pub proof fn law_receivers_are_counted_every_thirtieth_pair(ticker: BoundaryTicker, n: nat)
    ensures
        ({
            let s = after_pairs(ProgramLoop { ticker, since_conn_poll: CONN_POLL_EVERY }, n);
            &&& s.after_pair().0 <==> n % 30 == 0
            &&& s.ticker == ticker
            &&& n > 0 ==> s.since_conn_poll == (n - 1) % 30
        }),
    decreases n,
{
    if n > 0 {
        law_receivers_are_counted_every_thirtieth_pair(ticker, (n - 1) as nat);
    }
}

/// The sender submits exactly what it is handed, ends exactly when the bus has stopped,
/// and else looks again.
pub proof fn law_the_sender_submits_what_it_is_handed<V, A>(
    s: ProgramLoop,
    take: Take<V, A>,
    step: SenderStep<V, A>,
)
    requires
        call_ensures(ProgramLoop::step::<V, A>, (&s, take), step),
    ensures
        take matches Take::Job(job) ==> step == SenderStep::<V, A>::Submit(job),
        step is Submit <==> take is Job,
        step is Exit <==> take is Stopped,
        step is Again <==> take is Idle,
{
}

/// No boundary is ticked twice: right after a wake, another at the same time owes
/// nothing, however many boundaries the first one passed.
pub proof fn law_no_boundary_is_ticked_twice(ticker: BoundaryTicker, now: int)
    requires
        crate::program_bus::in_time(now),
    ensures
        ticker.after_wake(now).owed(now) == 0 || (ticker.owed(now) == 0 && ticker.last is Some),
        ticker.owed(now) > 0 ==> ticker.after_wake(now).owed(now) == 0,
        ticker.last is None ==> ticker.after_wake(now).last is Some,
        ticker.last is Some && ticker.owed(now) == 0 ==> ticker.after_wake(now) == ticker,
{
    crate::program_bus::lemma_slot_bounds(now);
}

} // verus!
