//! The health report of a pipeline.

use sp_playback::pacing_stats::PacingStats;
use sp_playback::pipeline_heartbeat::{
    classify_bad_poll, emit_heartbeat_paced, grid_rate, observed_rate, should_run_heartbeat,
    Heartbeat, PacedWindow, SenderReading,
};
use sp_playback::pipeline_types::{LoopStats, PipelineEvent, PlaybackStateLabel};
use sp_playback::submit_handoff::{PacedSubmitStats, SubmitCounters};
use std::time::Duration;

/// An hour on the process clock.
const NOW: u64 = 3_600_000_000_000;

fn ns(d: Duration) -> u64 {
    d.as_nanos() as u64
}

/// A frame rate in millionths.
fn fps(rate: f64) -> u64 {
    (rate * 1_000_000.0).round() as u64
}

type Event = PipelineEvent<f64, u32>;

fn reading() -> SenderReading {
    SenderReading {
        connections: 1,
        frames_submitted_total: 5,
        frames_in_window: 0,
        window_ns: 5_000_000_000,
        nominal_fps: fps(30.0),
        source_fps: fps(24.0),
        last_submit_ns: Some(NOW),
    }
}

#[test]
fn should_run_heartbeat_returns_true_on_or_after_5_seconds() {
    assert!(should_run_heartbeat(ns(Duration::from_secs(5))));
    assert!(should_run_heartbeat(ns(Duration::from_secs(6))));
    assert!(should_run_heartbeat(ns(Duration::from_millis(10_000))));
}

#[test]
fn should_run_heartbeat_returns_false_below_5_seconds() {
    assert!(!should_run_heartbeat(ns(Duration::from_secs(0))));
    assert!(!should_run_heartbeat(ns(Duration::from_secs(4))));
    assert!(!should_run_heartbeat(ns(Duration::from_millis(4_999))));
}

#[test]
fn classify_bad_poll_connections_zero_while_playing() {
    assert!(classify_bad_poll(
        &PlaybackStateLabel::Playing,
        0,
        fps(30.0),
        fps(30.0),
        None,
        NOW,
    ));
}

#[test]
fn classify_bad_poll_paused_is_never_bad() {
    assert!(!classify_bad_poll(
        &PlaybackStateLabel::Paused,
        0,
        fps(0.0),
        fps(30.0),
        None,
        NOW,
    ));
}

#[test]
fn classify_bad_poll_idle_is_never_bad() {
    assert!(!classify_bad_poll(
        &PlaybackStateLabel::Idle,
        0,
        fps(0.0),
        fps(30.0),
        None,
        NOW,
    ));
}

#[test]
fn classify_bad_poll_underrun_when_observed_below_half_nominal() {
    assert!(classify_bad_poll(
        &PlaybackStateLabel::Playing,
        1,
        fps(10.0),
        fps(30.0),
        Some(NOW),
        NOW,
    ));
    assert!(!classify_bad_poll(
        &PlaybackStateLabel::Playing,
        1,
        fps(16.0),
        fps(30.0),
        Some(NOW),
        NOW,
    ));
}

#[test]
fn classify_bad_poll_stale_when_last_submit_more_than_10s_ago() {
    let now = NOW;
    assert!(classify_bad_poll(
        &PlaybackStateLabel::Playing,
        1,
        fps(30.0),
        fps(30.0),
        Some(now - ns(Duration::from_secs(11))),
        now,
    ));
    assert!(!classify_bad_poll(
        &PlaybackStateLabel::Playing,
        1,
        fps(30.0),
        fps(30.0),
        Some(now - ns(Duration::from_secs(9))),
        now,
    ));
}

#[test]
fn classify_bad_poll_does_not_trigger_underrun_when_nominal_fps_is_zero() {
    let now = NOW;
    assert!(!classify_bad_poll(
        &PlaybackStateLabel::Playing,
        1,
        fps(10.0),
        fps(0.0),
        Some(now),
        now,
    ));
}

#[test]
fn classify_bad_poll_underrun_excludes_exact_half_nominal() {
    let now = NOW;
    assert!(!classify_bad_poll(
        &PlaybackStateLabel::Playing,
        1,
        fps(15.0),
        fps(30.0),
        Some(now),
        now,
    ));
    assert!(classify_bad_poll(
        &PlaybackStateLabel::Playing,
        1,
        fps(14.99),
        fps(30.0),
        Some(now),
        now,
    ));
}

#[test]
fn classify_bad_poll_stale_excludes_exact_10s() {
    let now = NOW;
    assert!(!classify_bad_poll(
        &PlaybackStateLabel::Playing,
        1,
        fps(30.0),
        fps(30.0),
        Some(now - ns(Duration::from_secs(10))),
        now,
    ));
    assert!(classify_bad_poll(
        &PlaybackStateLabel::Playing,
        1,
        fps(30.0),
        fps(30.0),
        Some(now - ns(Duration::from_secs(10)) - 1),
        now,
    ));
}

#[test]
fn paused_heartbeat_reports_paused_state_with_non_increasing_counters() {
    // Five frames left before the pause, in the window that the report closes.
    let submitted = SenderReading {
        frames_in_window: 5,
        window_ns: ns(Duration::from_secs(6)),
        ..reading()
    };
    let mut hb = Heartbeat { last_ns: NOW - ns(Duration::from_secs(6)), consecutive_bad_polls: 0 };
    let event: Option<Event> =
        hb.run_heartbeat_paused(submitted, PacingStats::default(), 9, NOW);
    match event.expect("a silent pause would freeze the health page") {
        PipelineEvent::HealthSnapshot {
            reported_state,
            observed_fps,
            frames_submitted_total,
            frames_submitted_last_5s,
            consecutive_bad_polls,
            last_heartbeat_ts,
            audio,
            ..
        } => {
            assert_eq!(reported_state, PlaybackStateLabel::Paused);
            assert_eq!(observed_fps, 0);
            assert_eq!(frames_submitted_total, 5);
            assert_eq!(frames_submitted_last_5s, 5);
            assert_eq!(consecutive_bad_polls, 0);
            assert_eq!(last_heartbeat_ts, NOW);
            assert_eq!(audio, 9);
        }
        other => panic!("unexpected event: {other:?}"),
    }
    assert_eq!(hb, Heartbeat { last_ns: NOW, consecutive_bad_polls: 0 });
}

#[test]
fn paused_heartbeat_respects_5s_cadence() {
    let mut just_ticked = Heartbeat { last_ns: NOW, consecutive_bad_polls: 0 };
    let silent: Option<Event> =
        just_ticked.run_heartbeat_paused(reading(), PacingStats::default(), 9, NOW);
    assert!(silent.is_none());

    let mut hb = Heartbeat { last_ns: NOW - 4_999_999_999, consecutive_bad_polls: 4 };
    let before = hb;
    let event: Option<Event> =
        hb.run_heartbeat_paused(reading(), PacingStats::default(), 9, NOW);
    assert!(event.is_none());
    assert_eq!(hb, before);
    assert!(hb.due(NOW + 1));
    assert!(!hb.due(0), "a clock that went back");
}

#[test]
fn bad_polls_count_up_and_a_good_one_ends_the_run() {
    let mut hb = Heartbeat::new(0);
    let bad = SenderReading { connections: 0, ..reading() };
    for n in 1..=3 {
        let _: Event = hb.emit_heartbeat(
            bad,
            PlaybackStateLabel::Playing,
            PacingStats::default(),
            0,
            LoopStats::default(),
            NOW,
        );
        assert_eq!(hb.consecutive_bad_polls, n);
    }
    let good = SenderReading { frames_in_window: 150, ..reading() };
    let event: Event = hb.emit_heartbeat(
        good,
        PlaybackStateLabel::Playing,
        PacingStats::default(),
        0,
        LoopStats::default(),
        NOW,
    );
    assert_eq!(hb.consecutive_bad_polls, 0);
    match event {
        PipelineEvent::HealthSnapshot { observed_fps, frames_submitted_last_5s, .. } => {
            assert_eq!(observed_fps, fps(30.0));
            assert_eq!(frames_submitted_last_5s, 150);
        }
        other => panic!("unexpected event: {other:?}"),
    }
    hb.consecutive_bad_polls = u32::MAX;
    let _: Event = hb.emit_heartbeat(
        bad,
        PlaybackStateLabel::Playing,
        PacingStats::default(),
        0,
        LoopStats::default(),
        NOW,
    );
    assert_eq!(hb.consecutive_bad_polls, u32::MAX);
}

#[test]
fn a_rate_is_frames_over_at_least_a_millisecond() {
    assert_eq!(observed_rate(150, 5_000_000_000), fps(30.0));
    assert_eq!(observed_rate(1, 0), fps(1_000.0));
    assert_eq!(observed_rate(0, 7), 0);
    assert_eq!(observed_rate(u64::MAX, 0), u64::MAX);
    assert_eq!(grid_rate(), fps(30.0));
}

#[test]
fn a_paced_report_counts_the_frames_that_left() {
    let mut submit = SubmitCounters::new();
    for _ in 0..60 {
        submit.record_submit(0, 100, 1);
    }
    submit.record_submit(50_000, 300_000, 2);
    submit.record_drop();
    let mut hb = Heartbeat::new(0);
    let mut window = PacedWindow { prev_total: 1, prev_ns: NOW - 2_000_000_000 };
    let pacer: PacingStats<f64> = PacingStats { enabled: true, dropped: 3, ..Default::default() };
    let event: Event = emit_heartbeat_paced(
        &mut hb,
        &mut window,
        &submit,
        2,
        Some(NOW),
        PacedSubmitStats { submit_call_us_max: 90, submit_call_us_p99: 75 },
        pacer,
        4,
        fps(23.976),
        None,
        PlaybackStateLabel::Playing,
        NOW,
    );
    match event {
        PipelineEvent::HealthSnapshot {
            connections,
            frames_submitted_total,
            frames_submitted_last_5s,
            observed_fps,
            nominal_fps,
            source_fps,
            consecutive_bad_polls,
            pacing,
            loop_stats,
            ..
        } => {
            assert_eq!(connections, 2);
            assert_eq!((frames_submitted_total, frames_submitted_last_5s), (61, 60));
            assert_eq!((observed_fps, nominal_fps), (fps(30.0), fps(30.0)));
            assert_eq!(source_fps, fps(23.976));
            assert_eq!(consecutive_bad_polls, 0);
            assert_eq!((pacing.dropped, pacing.late_frames), (4, 1));
            assert!(pacing.enabled);
            assert_eq!((loop_stats.submit_call_us_max, loop_stats.submit_call_us_p99), (90, 75));
        }
        other => panic!("unexpected event: {other:?}"),
    }
    assert_eq!(window, PacedWindow { prev_total: 61, prev_ns: NOW });
    assert_eq!(hb.last_ns, NOW);
}
