//! The sleep plan of the boundary pacer.

use crate::genlock::UNITS_PER_SECOND;
use crate::submit_handoff::PacedFrame;
use vstd::prelude::*;

verus! {

/// How to wait for a boundary. Clock jumps and bad boundaries must never park
/// the send thread, so the coarse sleep is bounded, and a boundary that sits
/// more than one slot ahead means the clock stepped backward.
#[derive(Clone, Copy, Debug, PartialEq, Eq, Structural)]
pub struct SleepDecision {
    /// Coarse monotonic sleep in 100 ns units, within `[0, 1 s]`.
    pub sleep_100ns: i64,
    /// The boundary sits more than one slot ahead of `now`: do not spin, let
    /// the loop latch onto the grid again.
    pub relatch: bool,
}

/// How long (ms) the outer loop of a pipeline waits for a command before its
/// idle turn. A paced pipeline fills every boundary, so it does not wait.
pub fn idle_poll(paced: bool) -> (r: u64)
    ensures
        r == if paced {
            0u64
        } else {
            5_000u64
        },
{
    if paced {
        0
    } else {
        5_000
    }
}

/// `x` brought into `[0, 1 s]`.
pub open spec fn clamped_to_one_second(x: int) -> int {
    if x < 0 {
        0
    } else if x > UNITS_PER_SECOND {
        UNITS_PER_SECOND as int
    } else {
        x
    }
}

/// Plan the wait of a wall clock at `now_100ns` for the boundary
/// `until_100ns`, on a grid of `interval_100ns` wide slots.
///
/// The exact grid holds slots one unit wider than the nominal interval, so the
/// relatch bound is the interval plus two. An interval of 0 (grid off) never
/// relatches.
pub fn plan_sleep_100ns(now_100ns: i64, until_100ns: i64, interval_100ns: i64) -> (r: SleepDecision)
    requires
        i64::MIN <= until_100ns - now_100ns <= i64::MAX,
        interval_100ns <= i64::MAX - 2,
    ensures
        r.sleep_100ns == clamped_to_one_second(until_100ns - now_100ns),
        r.relatch <==> interval_100ns > 0 && until_100ns - now_100ns > interval_100ns + 2,
{
    let delta: i64 = until_100ns - now_100ns;
    let sleep_100ns: i64 = if delta < 0 {
        0
    } else if delta > UNITS_PER_SECOND {
        UNITS_PER_SECOND
    } else {
        delta
    };
    SleepDecision { sleep_100ns, relatch: interval_100ns > 0 && delta > interval_100ns + 2 }
}

/// A wait for the immediate next boundary is never taken for a backward clock
/// step, on whichever slot it falls.
pub proof fn law_next_boundary_never_relatches(now: int, fps: int)
    requires
        fps > 0,
    ensures
        crate::genlock::next_of(now, fps) - now <= crate::genlock::interval_of(fps) + 2,
{
    crate::genlock::law_next_is_near(now, fps);
}

/// The frame a sink that takes whole frames is handed for a shared picture: no
/// presentation time and no audio of its own.
pub fn one_shot_frame<V, A>(width: u32, height: u32, stride: u32, video: V) -> (r: PacedFrame<V, A>)
    ensures
        r.pts_ns == 0,
        r.width == width,
        r.height == height,
        r.stride == stride,
        r.video == video,
        r.audio@ == Seq::<A>::empty(),
{
    PacedFrame { pts_ns: 0, width, height, stride, video, audio: Vec::new() }
}

/// A wait lasts until the boundary, but never longer than a second and never less than
/// nothing; a boundary more than a slot ahead is taken for a clock that went back.
pub proof fn law_a_wait_ends_on_its_boundary(now: i64, until: i64, interval: i64, r: SleepDecision)
    requires
        call_ensures(plan_sleep_100ns, (now, until, interval), r),
        interval <= i64::MAX - 2,
    ensures
        now <= until <= now + 10_000_000 ==> now + r.sleep_100ns == until,
        until < now ==> r.sleep_100ns == 0,
        until > now + 10_000_000 ==> r.sleep_100ns == 10_000_000,
        interval > 0 && until > now + interval + 2 ==> r.relatch,
        interval > 0 && until <= now + interval + 2 ==> !r.relatch,
        interval <= 0 ==> !r.relatch,
{
}

/// A shared picture is handed on as it is, with its size and stride, alone.
pub proof fn law_a_shared_picture_is_handed_on<V, A>(
    width: u32,
    height: u32,
    stride: u32,
    video: V,
    r: PacedFrame<V, A>,
)
    requires
        call_ensures(one_shot_frame::<V, A>, (width, height, stride, video), r),
    ensures
        r.width == width && r.height == height && r.stride == stride,
        r.video == video,
        r.audio@.len() == 0,
        r.pts_ns == 0,
{
}

/// A paced pipeline does not wait for a command, since it fills every boundary; one that
/// is not paced waits five seconds.
pub proof fn law_a_paced_pipeline_does_not_wait(paced: bool, ms: u64)
    requires
        call_ensures(idle_poll, (paced,), ms),
    ensures
        paced ==> ms == 0,
        !paced ==> ms == 5_000,
{
}

} // verus!
