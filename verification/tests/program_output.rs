//! What the program sender sends, and when it looks.

use sp_playback::genlock::{floor_boundary_100ns, strict_next_boundary_100ns, GENLOCK_GRID_FPS};
use sp_playback::program_bus::{ProgramBus, ProgramJob};
use sp_playback::program_output::{
    next_check_wait, samples_per_boundary, BoundaryTicker, ProgramLoop, ProgramOutput, SenderStep,
    CHECK_AFTER_BOUNDARY_100NS, CONN_POLL_EVERY, MAX_TICKS_PER_WAKE, PROGRAM_AUDIO_CHANNELS,
    PROGRAM_AUDIO_RATE_HZ,
};
use sp_playback::submit_handoff::SubmitJob;
use std::sync::Arc;
use std::time::Duration;

const T0: i64 = 17_900_000_000_000_000;

type Video = Arc<Vec<u8>>;

#[test]
fn a_standby_pair_is_one_silent_block_then_the_nv12_black_on_its_boundary() {
    let out = ProgramOutput::new(4, 2);
    let stamp = floor_boundary_100ns(T0, GENLOCK_GRID_FPS);
    let job: ProgramJob<Video, Vec<f32>> = ProgramJob::Standby { stamp_100ns: stamp };
    let pair = out.submit(job, stamp + 123);
    assert_eq!(pair.video_tc_100ns, stamp);
    assert_eq!(pair.audio_tc_100ns, stamp + 123, "audio = emit instant");
    assert_eq!((pair.width, pair.height, pair.stride), (4, 2, 4));
    assert!(pair.video.is_none() && pair.audio.is_none(), "the program's own pair");
    assert_eq!((PROGRAM_AUDIO_RATE_HZ, PROGRAM_AUDIO_CHANNELS), (48_000, 2));
    assert_eq!(out.silence_len(), 3200);
    assert_eq!(out.black_len(), 4 * 2 * 3 / 2, "the NV12 black of the configured size");
}

#[test]
fn a_forwarded_boundary_keeps_the_sources_frame_audio_and_stamps() {
    let out = ProgramOutput::new(4, 2);
    let video: Video = Arc::new(vec![7u8; 8 * 2 * 3 / 2]);
    let stamp = floor_boundary_100ns(T0, GENLOCK_GRID_FPS);
    let job = SubmitJob {
        width: 8,
        height: 2,
        stride: 8,
        video: video.clone(),
        audio: vec![vec![0.5f32; 3200]],
        video_tc_100ns: stamp,
        audio_tc_100ns: stamp + 77,
    };
    let pair = out.submit(ProgramJob::Source(job), stamp + 999);
    assert_eq!(pair.video_tc_100ns, stamp);
    assert_eq!(pair.audio_tc_100ns, stamp + 77, "the source's own stamp");
    assert_eq!((pair.width, pair.height, pair.stride), (8, 2, 8));
    assert!(
        Arc::ptr_eq(&pair.video.expect("a picture"), &video),
        "the source's own allocation, zero copy"
    );
    let audio = pair.audio.expect("the source's audio");
    assert_eq!(audio.len(), 1);
    assert!(audio[0].iter().all(|&s| s == 0.5));
}

#[test]
fn the_sender_checks_one_ms_after_the_next_boundary() {
    let b0 = floor_boundary_100ns(T0, GENLOCK_GRID_FPS);
    let b1 = strict_next_boundary_100ns(b0, GENLOCK_GRID_FPS);
    assert_eq!(
        Duration::from_nanos(next_check_wait(b0)),
        Duration::from_nanos(((b1 - b0 + CHECK_AFTER_BOUNDARY_100NS) * 100) as u64)
    );
    assert_eq!(
        Duration::from_nanos(next_check_wait(b0 + 5)),
        Duration::from_nanos(((b1 - b0 - 5 + CHECK_AFTER_BOUNDARY_100NS) * 100) as u64)
    );
    assert_eq!(CHECK_AFTER_BOUNDARY_100NS, 10_000, "1 ms");
}

#[test]
fn the_program_wall_ticks_once_per_grid_boundary_not_per_wake() {
    let b = |k: i64| {
        let mut x = floor_boundary_100ns(T0, GENLOCK_GRID_FPS);
        for _ in 0..k {
            x = strict_next_boundary_100ns(x, GENLOCK_GRID_FPS);
        }
        x
    };
    let mut t = BoundaryTicker::default();
    assert_eq!(t.advance(b(10) + 5), 0, "the first wake only anchors");
    assert_eq!(
        t.advance(b(10) + 20_000),
        0,
        "a second wake in the same slot"
    );
    assert_eq!(t.advance(b(11) + 10_000), 1, "one boundary passed");
    assert_eq!(t.advance(b(11) + 30_000), 0, "woken again, same boundary");
    assert_eq!(
        t.advance(b(14) + 10_000),
        3,
        "a stall: three boundaries owed"
    );
    assert_eq!(t.advance(b(5)), 0, "a backward read owes nothing");
    assert_eq!(
        t.advance(b(15) + 10_000),
        1,
        "and does not move the anchor back"
    );
    assert_eq!(
        t.advance(b(15 + 100)),
        MAX_TICKS_PER_WAKE,
        "a long stall is capped"
    );
    assert_eq!(t.advance(b(116)), 1, "counted from the capped wake");
}

#[test]
fn a_slot_holds_a_thirtieth_of_a_second_of_audio() {
    assert_eq!(samples_per_boundary(48_000, 30), 1_600);
    assert_eq!(samples_per_boundary(44_100, 30), 1_470);
}

#[test]
fn a_sourceless_program_sends_the_reached_boundary_and_stops() {
    let mut bus: ProgramBus<Video, Vec<f32>> = ProgramBus::new();
    let mut sender = ProgramLoop::new();
    let b0 = floor_boundary_100ns(T0, GENLOCK_GRID_FPS);
    let now = b0 + CHECK_AFTER_BOUNDARY_100NS;
    let wake = sender.wake(&mut bus, now);
    assert_eq!(wake.ticks, 0);
    assert_eq!(wake.wait_ns, next_check_wait(now));
    let take = bus.take_now();
    match sender.step(take) {
        SenderStep::Submit(job) => assert_eq!(job.stamp_100ns(), b0),
        _ => panic!("the reached boundary is sent"),
    }
    assert!(sender.submitted(), "the first submit looks at the connections");
    bus.record_submitted(b0);
    for _ in 1..CONN_POLL_EVERY {
        assert!(!sender.submitted());
    }
    assert!(sender.submitted(), "and then every thirtieth");
    let take = bus.take_now();
    assert!(matches!(sender.step(take), SenderStep::Again));
    bus.stop();
    let take = bus.take_now();
    assert!(matches!(sender.step(take), SenderStep::Exit));
    let st = bus.status();
    assert_eq!((st.health.submitted, st.health.filled), (1, 1));
}

#[test]
fn the_ticks_follow_the_boundaries_passed_not_the_wakes() {
    let mut bus: ProgramBus<Video, Vec<f32>> = ProgramBus::new();
    let mut sender = ProgramLoop::new();
    let b0 = floor_boundary_100ns(T0, GENLOCK_GRID_FPS);
    let b3 = (0..3).fold(b0, |x, _| strict_next_boundary_100ns(x, GENLOCK_GRID_FPS));
    assert_eq!(sender.wake(&mut bus, b0 + CHECK_AFTER_BOUNDARY_100NS).ticks, 0);
    assert_eq!(sender.wake(&mut bus, b3 + CHECK_AFTER_BOUNDARY_100NS).ticks, 3);
    assert_eq!(sender.wake(&mut bus, b3 + CHECK_AFTER_BOUNDARY_100NS + 5).ticks, 0);
    let mut sent = 0;
    while bus.core.take().is_some() {
        sent += 1;
    }
    assert_eq!(sent, 4, "one pair per boundary");
}
