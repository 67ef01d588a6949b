//! The health report of a pipeline, every five seconds.

use crate::genlock::GENLOCK_GRID_FPS;
use crate::pacing_stats::PacingStats;
use crate::pipeline_types::{LoopStats, PipelineEvent, PlaybackStateLabel};
use crate::proc_mem::ProcMemGauge;
use crate::submit_handoff::{merge_pacing_stats, PacedSubmitStats, SubmitCounters};
use vstd::prelude::*;

verus! {

/// Time between two reports.
pub const HEARTBEAT_PERIOD_NS: u64 = 5_000_000_000;

/// A playing output that sent nothing for longer than this is stale.
pub const STALE_AFTER_NS: u64 = 10_000_000_000;

/// The shortest window a rate is taken over.
pub const MIN_WINDOW_NS: u64 = 1_000_000;

/// Whether `elapsed_ns` after the last report another one is due.
pub fn should_run_heartbeat(elapsed_ns: u64) -> (r: bool)
    ensures
        r <==> elapsed_ns >= HEARTBEAT_PERIOD_NS,
{
    elapsed_ns >= HEARTBEAT_PERIOD_NS
}

/// From `earlier` to `now`; nothing when the clock went backward.
pub open spec fn since(now: u64, earlier: u64) -> int {
    if now >= earlier {
        now - earlier
    } else {
        0
    }
}

/// A poll is bad when the output plays and nobody is connected, it sent at less
/// than half its rate, or its last frame left more than ten seconds ago. An
/// output that does not play has no bad polls.
pub open spec fn bad_poll(
    state: PlaybackStateLabel,
    connections: i32,
    observed_fps: u64,
    nominal_fps: u64,
    last_submit: Option<u64>,
    now: u64,
) -> bool {
    state == PlaybackStateLabel::Playing && (connections == 0 || 2 * observed_fps < nominal_fps
        || (last_submit matches Some(t) && since(now, t) > STALE_AFTER_NS))
}

/// Whether the poll at `now_ns` was bad. Rates are millionths of a frame per
/// second.
pub fn classify_bad_poll(
    state: &PlaybackStateLabel,
    connections: i32,
    observed_fps: u64,
    nominal_fps: u64,
    last_submit_ns: Option<u64>,
    now_ns: u64,
) -> (r: bool)
    ensures
        r == bad_poll(*state, connections, observed_fps, nominal_fps, last_submit_ns, now_ns),
{
    if !matches!(*state, PlaybackStateLabel::Playing) {
        return false;
    }
    if connections == 0 {
        return true;
    }
    if 2 * (observed_fps as u128) < nominal_fps as u128 {
        return true;
    }
    match last_submit_ns {
        Some(t) => now_ns.saturating_sub(t) > STALE_AFTER_NS,
        None => false,
    }
}

/// `frames` in a window of `window_ns` as millionths of a frame per second, at
/// most what the type holds.
pub open spec fn rate_over(frames: int, window_ns: int) -> int {
    let w = if window_ns < MIN_WINDOW_NS {
        MIN_WINDOW_NS as int
    } else {
        window_ns
    };
    let rate = (frames * 1_000_000_000_000_000) / w;
    if rate > u64::MAX {
        u64::MAX as int
    } else {
        rate
    }
}

/// The observed rate of `frames` frames in `window_ns`.
pub fn observed_rate(frames: u64, window_ns: u64) -> (r: u64)
    ensures
        r == rate_over(frames as int, window_ns as int),
{
    let w: u128 = if window_ns < MIN_WINDOW_NS {
        MIN_WINDOW_NS as u128
    } else {
        window_ns as u128
    };
    let rate: u128 = (frames as u128 * 1_000_000_000_000_000) / w;
    if rate > u64::MAX as u128 {
        u64::MAX
    } else {
        rate as u64
    }
}

/// The count of bad polls in a row, after one more poll.
pub open spec fn bad_polls_after(count: u32, bad: bool) -> u32 {
    if !bad {
        0
    } else if count == u32::MAX {
        u32::MAX
    } else {
        (count + 1) as u32
    }
}

/// When a pipeline last reported, and how many bad polls it has had in a row.
#[derive(Debug, Clone, Copy, PartialEq, Eq, Structural)]
pub struct Heartbeat {
    pub last_ns: u64,
    pub consecutive_bad_polls: u32,
}

/// What the sender says when a report is made.
#[derive(Debug, Clone, Copy, PartialEq, Eq, Structural)]
pub struct SenderReading {
    pub connections: i32,
    pub frames_submitted_total: u64,
    /// Frames since the last report, and the length of that window.
    pub frames_in_window: u32,
    pub window_ns: u64,
    pub nominal_fps: u64,
    pub source_fps: u64,
    pub last_submit_ns: Option<u64>,
}

/// The rate of a reading: its frames over its window.
pub open spec fn rate_of(reading: SenderReading) -> u64 {
    rate_over(reading.frames_in_window as int, reading.window_ns as int) as u64
}

/// The report of a sender in `state` at `rate`, with `bad` polls in a row.
pub open spec fn snapshot_of<E, A>(
    reading: SenderReading,
    rate: u64,
    state: PlaybackStateLabel,
    bad: u32,
    pacing: PacingStats<E>,
    audio: A,
    loop_stats: LoopStats,
    now: u64,
) -> PipelineEvent<E, A> {
    PipelineEvent::HealthSnapshot {
        connections: reading.connections,
        frames_submitted_total: reading.frames_submitted_total,
        frames_submitted_last_5s: reading.frames_in_window,
        observed_fps: rate,
        nominal_fps: reading.nominal_fps,
        source_fps: reading.source_fps,
        last_submit_ts: reading.last_submit_ns,
        last_heartbeat_ts: now,
        consecutive_bad_polls: bad,
        reported_state: state,
        pacing,
        audio,
        loop_stats,
    }
}

/// Whether a report of `reading` in `state` is a bad poll.
pub open spec fn bad_reading(reading: SenderReading, state: PlaybackStateLabel, now: u64) -> bool {
    bad_poll(
        state,
        reading.connections,
        rate_of(reading),
        reading.nominal_fps,
        reading.last_submit_ns,
        now,
    )
}

impl Heartbeat {
    pub fn new(now_ns: u64) -> (r: Self)
        ensures
            r == (Heartbeat { last_ns: now_ns, consecutive_bad_polls: 0 }),
    {
        Heartbeat { last_ns: now_ns, consecutive_bad_polls: 0 }
    }

    /// A report is due at `now`.
    pub open spec fn is_due(self, now: u64) -> bool {
        since(now, self.last_ns) >= HEARTBEAT_PERIOD_NS
    }

    /// Whether a report is due.
    pub fn due(&self, now_ns: u64) -> (r: bool)
        ensures
            r == self.is_due(now_ns),
    {
        should_run_heartbeat(now_ns.saturating_sub(self.last_ns))
    }

    /// The state after a report that was good or bad.
    pub open spec fn after(self, bad: bool, now: u64) -> Heartbeat {
        Heartbeat {
            last_ns: now,
            consecutive_bad_polls: bad_polls_after(self.consecutive_bad_polls, bad),
        }
    }

    fn count(&mut self, bad: bool, now_ns: u64)
        ensures
            *final(self) == old(self).after(bad, now_ns),
    {
        self.consecutive_bad_polls = if bad {
            self.consecutive_bad_polls.saturating_add(1)
        } else {
            0
        };
        self.last_ns = now_ns;
    }

    /// Make a report at the rate `observed_fps`.
    fn report<E, A>(
        &mut self,
        reading: SenderReading,
        observed_fps: u64,
        state: PlaybackStateLabel,
        pacing: PacingStats<E>,
        audio: A,
        loop_stats: LoopStats,
        now_ns: u64,
    ) -> (r: PipelineEvent<E, A>)
        ensures
            *final(self) == old(self).after(
                bad_poll(
                    state,
                    reading.connections,
                    observed_fps,
                    reading.nominal_fps,
                    reading.last_submit_ns,
                    now_ns,
                ),
                now_ns,
            ),
            r == snapshot_of(
                reading,
                observed_fps,
                state,
                final(self).consecutive_bad_polls,
                pacing,
                audio,
                loop_stats,
                now_ns,
            ),
    {
        let bad: bool = classify_bad_poll(
            &state,
            reading.connections,
            observed_fps,
            reading.nominal_fps,
            reading.last_submit_ns,
            now_ns,
        );
        self.count(bad, now_ns);
        PipelineEvent::HealthSnapshot {
            connections: reading.connections,
            frames_submitted_total: reading.frames_submitted_total,
            frames_submitted_last_5s: reading.frames_in_window,
            observed_fps,
            nominal_fps: reading.nominal_fps,
            source_fps: reading.source_fps,
            last_submit_ts: reading.last_submit_ns,
            last_heartbeat_ts: now_ns,
            consecutive_bad_polls: self.consecutive_bad_polls,
            reported_state: state,
            pacing,
            audio,
            loop_stats,
        }
    }

    /// Make a report.
    pub fn emit_heartbeat<E, A>(
        &mut self,
        reading: SenderReading,
        state: PlaybackStateLabel,
        pacing: PacingStats<E>,
        audio: A,
        loop_stats: LoopStats,
        now_ns: u64,
    ) -> (r: PipelineEvent<E, A>)
        ensures
            *final(self) == old(self).after(bad_reading(reading, state, now_ns), now_ns),
            r == snapshot_of(
                reading,
                rate_of(reading),
                state,
                final(self).consecutive_bad_polls,
                pacing,
                audio,
                loop_stats,
                now_ns,
            ),
    {
        let observed_fps: u64 = observed_rate(reading.frames_in_window as u64, reading.window_ns);
        self.report(reading, observed_fps, state, pacing, audio, loop_stats, now_ns)
    }

    /// The report of a held song: made only when one is due, always as paused, at a
    /// rate of 0, with no loop gauges. A window that began before the pause may still
    /// hold frames; they are counted and give no rate.
    pub fn run_heartbeat_paused<E, A>(
        &mut self,
        reading: SenderReading,
        pacing: PacingStats<E>,
        audio: A,
        now_ns: u64,
    ) -> (r: Option<PipelineEvent<E, A>>)
        ensures
            !old(self).is_due(now_ns) ==> r is None && *final(self) == *old(self),
            old(self).is_due(now_ns) ==> {
                &&& *final(self) == (Heartbeat { last_ns: now_ns, consecutive_bad_polls: 0 })
                &&& r == Some(
                    snapshot_of(
                        reading,
                        0,
                        PlaybackStateLabel::Paused,
                        0,
                        pacing,
                        audio,
                        (LoopStats {
                            submit_call_us_max: 0,
                            submit_call_us_p99: 0,
                            proc_mem: None,
                        }),
                        now_ns,
                    ),
                )
            },
    {
        if !self.due(now_ns) {
            return None;
        }
        Some(
            self.report(
                reading,
                0,
                PlaybackStateLabel::Paused,
                pacing,
                audio,
                LoopStats { submit_call_us_max: 0, submit_call_us_p99: 0, proc_mem: None },
                now_ns,
            ),
        )
    }
}

/// Where the window of the next paced report begins.
#[derive(Debug, Clone, Copy, PartialEq, Eq, Structural)]
pub struct PacedWindow {
    pub prev_total: u64,
    pub prev_ns: u64,
}

impl PacedWindow {
    /// Frames that left since the window began; none when the count went back.
    pub open spec fn frames(self, total: u64) -> int {
        if total >= self.prev_total {
            total - self.prev_total
        } else {
            0
        }
    }
}

/// The rate of the grid (millionths of a frame per second).
pub fn grid_rate() -> (r: u64)
    ensures
        r == GENLOCK_GRID_FPS * 1_000_000,
{
    GENLOCK_GRID_FPS as u64 * 1_000_000
}

/// Make a report on the paced path, out of what the submit thread counted. The
/// rate is over the frames that left; the nominal rate is the grid's.
///
/// The frames of a window are reported by their low 32 bits.
pub fn emit_heartbeat_paced<E, A>(
    heartbeat: &mut Heartbeat,
    window: &mut PacedWindow,
    submit: &SubmitCounters,
    connections: i32,
    last_submit_ns: Option<u64>,
    paced_submit: PacedSubmitStats,
    pacer: PacingStats<E>,
    audio: A,
    source_fps: u64,
    proc_mem: Option<ProcMemGauge>,
    state: PlaybackStateLabel,
    now_ns: u64,
) -> (r: PipelineEvent<E, A>)
    requires
        submit.wf(),
        pacer.dropped + submit.dropped <= u64::MAX,
    ensures
        ({
            let frames = old(window).frames(submit.submitted);
            let observed = rate_over(frames, since(now_ns, old(window).prev_ns)) as u64;
            let nominal = (GENLOCK_GRID_FPS * 1_000_000) as u64;
            &&& r == snapshot_of(
                (SenderReading {
                    connections,
                    frames_submitted_total: submit.submitted,
                    frames_in_window: frames as u32,
                    window_ns: since(now_ns, old(window).prev_ns) as u64,
                    nominal_fps: nominal,
                    source_fps,
                    last_submit_ns,
                }),
                observed,
                state,
                final(heartbeat).consecutive_bad_polls,
                crate::submit_handoff::merged(pacer, submit, paced_submit),
                audio,
                (LoopStats {
                    submit_call_us_max: paced_submit.submit_call_us_max,
                    submit_call_us_p99: paced_submit.submit_call_us_p99,
                    proc_mem,
                }),
                now_ns,
            )
            &&& *final(heartbeat) == old(heartbeat).after(
                bad_poll(state, connections, observed, nominal, last_submit_ns, now_ns),
                now_ns,
            )
            &&& *final(window) == (PacedWindow { prev_total: submit.submitted, prev_ns: now_ns })
            &&& r == (PipelineEvent::HealthSnapshot {
                connections,
                frames_submitted_total: submit.submitted,
                frames_submitted_last_5s: frames as u32,
                observed_fps: observed,
                nominal_fps: nominal,
                source_fps,
                last_submit_ts: last_submit_ns,
                last_heartbeat_ts: now_ns,
                consecutive_bad_polls: final(heartbeat).consecutive_bad_polls,
                reported_state: state,
                pacing: PacingStats {
                    late_frames: submit.late_frames,
                    max_late_us: submit.max_late_us,
                    iter_p99_us: crate::submit_handoff::percentile_of(submit.costs@, 99) as u64,
                    dropped: (pacer.dropped + submit.dropped) as u64,
                    submit_call_us_max: paced_submit.submit_call_us_max,
                    submit_call_us_p99: paced_submit.submit_call_us_p99,
                    ..pacer
                },
                audio,
                loop_stats: LoopStats {
                    submit_call_us_max: paced_submit.submit_call_us_max,
                    submit_call_us_p99: paced_submit.submit_call_us_p99,
                    proc_mem,
                },
            })
        }),
{
    let pacing: PacingStats<E> = merge_pacing_stats(pacer, submit, paced_submit);
    let frames: u64 = submit.submitted.saturating_sub(window.prev_total);
    let observed_fps: u64 = observed_rate(frames, now_ns.saturating_sub(window.prev_ns));
    let nominal_fps: u64 = grid_rate();
    let bad: bool = classify_bad_poll(
        &state,
        connections,
        observed_fps,
        nominal_fps,
        last_submit_ns,
        now_ns,
    );
    heartbeat.count(bad, now_ns);
    window.prev_total = submit.submitted;
    window.prev_ns = now_ns;
    PipelineEvent::HealthSnapshot {
        connections,
        frames_submitted_total: submit.submitted,
        frames_submitted_last_5s: frames as u32,
        observed_fps,
        nominal_fps,
        source_fps,
        last_submit_ts: last_submit_ns,
        last_heartbeat_ts: now_ns,
        consecutive_bad_polls: heartbeat.consecutive_bad_polls,
        reported_state: state,
        pacing,
        audio,
        loop_stats: LoopStats {
            submit_call_us_max: paced_submit.submit_call_us_max,
            submit_call_us_p99: paced_submit.submit_call_us_p99,
            proc_mem,
        },
    }
}

/// A held song never counts a bad poll, and its report ends a run of them.
pub proof fn law_paused_polls_are_never_bad(
    heartbeat: Heartbeat,
    reading: SenderReading,
    now: u64,
)
    ensures
        !bad_reading(reading, PlaybackStateLabel::Paused, now),
        heartbeat.after(
            bad_reading(reading, PlaybackStateLabel::Paused, now),
            now,
        ).consecutive_bad_polls == 0,
{
}

/// A song that sends nothing in a whole window reports a rate of 0.
pub proof fn law_no_frames_no_rate(window_ns: u64)
    ensures
        rate_over(0, window_ns as int) == 0,
{
}

/// After a report the next one is not due for five seconds.
pub proof fn law_reports_are_five_seconds_apart(
    heartbeat: Heartbeat,
    bad: bool,
    now: u64,
    next: u64,
)
    requires
        now <= next,
    ensures
        heartbeat.after(bad, now).is_due(next) <==> next - now >= HEARTBEAT_PERIOD_NS,
{
}

/// A poll is bad exactly of an output that plays, and exactly when nobody is connected,
/// less than half its rate left, or its last frame left more than ten seconds ago.
pub proof fn law_what_makes_a_poll_bad(
    state: PlaybackStateLabel,
    connections: i32,
    observed_fps: u64,
    nominal_fps: u64,
    last_submit: Option<u64>,
    now: u64,
)
    ensures
        ({
            let bad = bad_poll(state, connections, observed_fps, nominal_fps, last_submit, now);
            let playing = state == PlaybackStateLabel::Playing;
            let stale = last_submit is Some && now > last_submit->0 + 10_000_000_000;
            &&& !playing ==> !bad
            &&& playing && connections == 0 ==> bad
            &&& playing && observed_fps + observed_fps < nominal_fps ==> bad
            &&& playing && stale ==> bad
            &&& connections != 0 && observed_fps + observed_fps >= nominal_fps && !stale ==> !bad
        }),
{
}

/// Bad polls in a row are counted, and a good one ends the row.
pub proof fn law_bad_polls_are_counted_in_a_row(count: u32)
    ensures
        bad_polls_after(count, false) == 0,
        count < u32::MAX ==> bad_polls_after(count, true) == count + 1,
        bad_polls_after(u32::MAX, true) == u32::MAX,
{
}

/// The rate is the frames over the window, in millionths of a frame per second, rounded
/// down; a window shorter than a millisecond counts as one.
pub proof fn law_the_rate_is_frames_over_the_window(frames: int, window_ns: int)
    requires
        frames >= 0,
        window_ns >= 1_000_000,
        rate_over(frames, window_ns) < u64::MAX,
    ensures
        rate_over(frames, window_ns) * window_ns <= frames * 1_000_000_000_000_000 < (rate_over(
            frames,
            window_ns,
        ) + 1) * window_ns,
        rate_over(frames, 0) == rate_over(frames, 1_000_000),
{
    let n = frames * 1_000_000_000_000_000;
    let q = rate_over(frames, window_ns);
    vstd::arithmetic::div_mod::lemma_fundamental_div_mod(n, window_ns);
    assert(q * window_ns <= n < (q + 1) * window_ns) by (nonlinear_arith)
        requires
            n == window_ns * q + n % window_ns,
            0 <= n % window_ns < window_ns,
    ;
}

/// A report says of its reading what the reading says, each figure in its own place.
pub proof fn law_a_report_says_what_was_read<E, A>(
    reading: SenderReading,
    rate: u64,
    state: PlaybackStateLabel,
    bad: u32,
    pacing: PacingStats<E>,
    audio: A,
    loop_stats: LoopStats,
    now: u64,
)
    ensures
        ({
            let report = snapshot_of(
                reading,
                rate,
                state,
                bad,
                pacing,
                audio,
                loop_stats,
                now,
            );
            &&& report matches PipelineEvent::HealthSnapshot {
                connections,
                frames_submitted_total,
                frames_submitted_last_5s,
                observed_fps,
                nominal_fps,
                source_fps,
                last_submit_ts,
                last_heartbeat_ts,
                consecutive_bad_polls,
                reported_state,
                pacing: p,
                audio: a,
                loop_stats: l,
            }
            &&& connections == reading.connections
            &&& frames_submitted_total == reading.frames_submitted_total
            &&& frames_submitted_last_5s == reading.frames_in_window
            &&& observed_fps == rate
            &&& nominal_fps == reading.nominal_fps
            &&& source_fps == reading.source_fps
            &&& last_submit_ts == reading.last_submit_ns
            &&& last_heartbeat_ts == now
            &&& consecutive_bad_polls == bad
            &&& reported_state == state
            &&& p == pacing && a == audio && l == loop_stats
        }),
{
}

/// A report is due exactly five seconds after the last, and notes when it was made.
pub proof fn law_when_a_report_is_due(heartbeat: Heartbeat, bad: bool, now: u64)
    ensures
        heartbeat.is_due(now) <==> now >= heartbeat.last_ns + 5_000_000_000,
        heartbeat.after(bad, now).last_ns == now,
        !bad ==> heartbeat.after(bad, now).consecutive_bad_polls == 0,
        bad && heartbeat.consecutive_bad_polls < u32::MAX ==> heartbeat.after(
            bad,
            now,
        ).consecutive_bad_polls == heartbeat.consecutive_bad_polls + 1,
{
}

/// Two windows in a row count the frames of both together.
pub proof fn law_windows_add_up(first: u64, second: u64, third: u64, t: u64)
    requires
        first <= second <= third,
    ensures
        (PacedWindow { prev_total: first, prev_ns: t }).frames(second) + (PacedWindow {
            prev_total: second,
            prev_ns: t,
        }).frames(third) == third - first,
        (PacedWindow { prev_total: second, prev_ns: t }).frames(first) == 0 || first == second,
{
}

} // verus!
