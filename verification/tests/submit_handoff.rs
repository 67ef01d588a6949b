//! The handoff to the submit thread.

use sp_playback::pacing_stats::PacingStats;
use sp_playback::submit_handoff::{
    is_submit_late, merge_pacing_stats, paced_submit_snapshot, submit_late_100ns, HandoffOutcome,
    PacedFrame, PacedSubmitStats, SubmitCounters, SubmitJob, SubmitQueue, SUBMIT_HANDOFF_BOUND,
};

#[test]
fn offer_enqueues_below_bound() {
    let mut q: SubmitQueue<u32> = SubmitQueue::new(SUBMIT_HANDOFF_BOUND);
    assert_eq!(SUBMIT_HANDOFF_BOUND, 2, "box-test-5 depth: 2");
    assert_eq!(q.offer(1), HandoffOutcome::Enqueued { depth: 1 });
    assert_eq!(q.offer(2), HandoffOutcome::Enqueued { depth: 2 });
    assert!(q.is_full());
    assert_eq!(q.depth(), 2);
}

#[test]
fn offer_coalesces_oldest_when_full() {
    let mut q: SubmitQueue<u32> = SubmitQueue::new(2);
    q.offer(1);
    q.offer(2);
    assert_eq!(q.offer(3), HandoffOutcome::Coalesced { depth: 2 });
    assert_eq!(q.take(), Some(2));
    assert_eq!(q.take(), Some(3));
    assert_eq!(q.take(), None);
}

#[test]
fn take_is_fifo_and_drains_to_empty() {
    let mut q: SubmitQueue<u32> = SubmitQueue::new(2);
    q.offer(10);
    q.offer(20);
    assert_eq!(q.take(), Some(10));
    assert!(!q.is_empty());
    assert_eq!(q.take(), Some(20));
    assert!(q.is_empty());
    assert_eq!(q.take(), None);
}

#[test]
fn submit_late_floors_at_zero_and_measures_from_stamp() {
    assert_eq!(submit_late_100ns(1_000, 500), 0);
    assert_eq!(submit_late_100ns(1_000, 1_600), 600);
    assert_eq!(submit_late_100ns(1_000, 1_000), 0);
}

#[test]
fn is_submit_late_uses_2ms_threshold() {
    assert!(!is_submit_late(0));
    assert!(!is_submit_late(20_000));
    assert!(is_submit_late(20_001));
    assert!(is_submit_late(50_000));
    assert!(is_submit_late(900_000));
}

#[test]
fn record_submit_counts_late_cost_and_last_ts() {
    let mut c = SubmitCounters::new();
    c.record_submit(5_000, 250_000, 10_000_000);
    assert_eq!(c.submitted, 1);
    assert_eq!(c.late_frames, 0);
    c.record_submit(50_000, 260_000, 10_000_400);
    assert_eq!(c.submitted, 2);
    assert_eq!(c.late_frames, 1);
    assert_eq!(c.max_late_us, 5_000);
    assert_eq!(c.last_submit_100ns, 10_000_400);
}

#[test]
fn record_drop_bumps_dropped_only() {
    let mut c = SubmitCounters::new();
    c.record_drop();
    c.record_drop();
    assert_eq!(c.dropped, 2);
    assert_eq!(c.submitted, 0);
    assert_eq!(c.late_frames, 0);
}

#[test]
fn submit_p99_reports_worst_cost_us() {
    let mut c = SubmitCounters::new();
    for _ in 0..99 {
        c.record_submit(0, 2_500, 0);
    }
    c.record_submit(0, 900_000, 0);
    assert_eq!(c.submit_p99_us(), 90_000);
    assert_eq!(c.submitted, 100);
}

#[test]
fn percentile_rank_is_nearest_rank_not_the_last_sample() {
    let mut c = SubmitCounters::new();
    for us in 1..=200u64 {
        c.record_submit(0, (us * 10) as i64, 0);
    }
    assert_eq!(c.cost_percentile_us(99), 199);
    assert_eq!(c.cost_percentile_us(50), 101);
}

#[test]
fn percentile_100_clamps_to_the_last_sample_without_panicking() {
    let mut c = SubmitCounters::new();
    for us in [7u64, 3, 11] {
        c.record_submit(0, (us * 10) as i64, 0);
    }
    assert_eq!(c.cost_percentile_us(100), 11);
}

#[test]
fn submit_p99_zero_when_empty() {
    let c = SubmitCounters::new();
    assert_eq!(c.submit_p99_us(), 0);
}

#[test]
fn merge_takes_late_from_submit_and_schedule_from_pacer() {
    let pacer: PacingStats<f64> = PacingStats {
        enabled: true,
        seq: 1000,
        late_frames: 0,
        max_late_us: 0,
        jitter_p99_us: 7,
        repeats: 12,
        resyncs: 1,
        relatches: 2,
        dropped: 3,
        lag_slots: 4,
        iter_p99_us: 0,
        prep_p99_us: 400,
        ..Default::default()
    };
    let mut submit = SubmitCounters::new();
    submit.record_submit(50_000, 300_000, 0);
    submit.record_drop();
    let paced_submit = PacedSubmitStats {
        submit_call_us_max: 90_000,
        submit_call_us_p99: 75_000,
    };
    let merged = merge_pacing_stats(pacer, &submit, paced_submit);

    assert_eq!(merged.late_frames, 1);
    assert_eq!(merged.max_late_us, 5_000);
    assert_eq!(merged.iter_p99_us, 30_000);
    assert_eq!(merged.dropped, 4);
    assert_eq!(merged.seq, 1000);
    assert_eq!(merged.repeats, 12);
    assert_eq!(merged.resyncs, 1);
    assert_eq!(merged.relatches, 2);
    assert_eq!(merged.lag_slots, 4);
    assert_eq!(merged.jitter_p99_us, 7);
    assert_eq!(merged.prep_p99_us, 400);
    assert!(merged.enabled);
    assert_eq!(merged.submit_call_us_max, 90_000);
    assert_eq!(merged.submit_call_us_p99, 75_000);
}

#[test]
fn paced_submit_snapshot_keeps_the_worst_of_each() {
    let start = PacedSubmitStats::default();
    let after_spike = paced_submit_snapshot(start, 90_000, 75_000);
    assert_eq!(after_spike.submit_call_us_max, 90_000);
    assert_eq!(after_spike.submit_call_us_p99, 75_000);
    let after_quiet = paced_submit_snapshot(after_spike, 10, 5);
    assert_eq!(
        after_quiet.submit_call_us_max, 90_000,
        "a later quiet sub-window must NOT lower the window max"
    );
    assert_eq!(
        after_quiet.submit_call_us_p99, 75_000,
        "a later quiet sub-window must NOT lower the window p99"
    );
    let after_bigger = paced_submit_snapshot(after_quiet, 954_000, 120_000);
    assert_eq!(after_bigger.submit_call_us_max, 954_000);
    assert_eq!(after_bigger.submit_call_us_p99, 120_000);
}

#[test]
fn submit_job_stamp_boundary_is_the_video_tc() {
    let job: SubmitJob<Vec<u8>, Vec<f32>> = SubmitJob {
        width: 1920,
        height: 1080,
        stride: 1920,
        video: vec![0u8; 8],
        audio: Vec::new(),
        video_tc_100ns: 3_333_300,
        audio_tc_100ns: 3_333_311,
    };
    assert_eq!(job.stamp_boundary_100ns(), 3_333_300);
}

#[test]
fn a_job_carries_its_frame_and_the_boundarys_audio() {
    let frame: PacedFrame<Vec<u8>, Vec<f32>> = PacedFrame {
        pts_ns: 5,
        width: 4,
        height: 2,
        stride: 8,
        video: vec![9; 6],
        audio: vec![vec![0.5]],
    };
    let job = SubmitJob::from_paced(&frame, &[vec![0.25], vec![0.75]], 100, 107);
    assert_eq!((job.width, job.height, job.stride), (4, 2, 8));
    assert_eq!(job.video, vec![9; 6]);
    assert_eq!(job.audio, vec![vec![0.25], vec![0.75]], "not the frame's own blocks");
    assert_eq!((job.video_tc_100ns, job.audio_tc_100ns), (100, 107));
}

#[test]
fn the_queue_keeps_the_freshest_jobs_in_order() {
    for bound in 1..5usize {
        let mut q: SubmitQueue<usize> = SubmitQueue::new(bound);
        for j in 0..20 {
            q.offer(j);
        }
        let mut left = Vec::new();
        while let Some(j) = q.take() {
            left.push(j);
        }
        assert_eq!(left, (20 - bound..20).collect::<Vec<_>>());
    }
}
