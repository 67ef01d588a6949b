//! The decisions of a pipeline.

use sp_playback::pacing_stats::PacingStats;
use sp_playback::pipeline::{
    after_sender, clocking, ends_unusable, open_error, song_command, stub_step, CommandStep,
    Decoded, FrameStep, LoopStep, OpenStage, PipelineLoop, Polled, SenderOutcome, Song, SongStep,
    StartStep, StubStep, POSITION_REPORT_NS,
};
use sp_playback::pipeline_audio::{
    is_late_frame, keep_draining, plan_block_wait, push_or_collect_audio, sleep_overshoot,
    BlockWait, EmitLog, EmitReport, EmittedBlock, LateQuery,
};
use sp_playback::pipeline_paced::{
    eos_tail, idle_label, idle_step, keep_spinning, paced_pts_ns, plan_boundary_wait, song_summary,
    source_rate, to_paced_frame, BoundaryWait, EndReason, Handed, IdleStep, OpenReply,
    PacedCommand, PacedSong, Produced, Producer, ProducerAction, ProducerStep, Served, ServedStep,
    SongSummary,
};
use sp_playback::pipeline_types::{
    DecodeResult, LoopStats, PipelineCommand, PipelineEvent, PlaybackStateLabel,
};
use sp_playback::preview_stream::DecodedVideoFrame;
use std::path::PathBuf;

type Event = PipelineEvent<f64, u32>;

fn play(name: &str) -> PipelineCommand {
    PipelineCommand::Play {
        video: PathBuf::from(format!("/tmp/{name}_video.mp4")),
        audio: PathBuf::from(format!("/tmp/{name}_audio.flac")),
        start_position_ms: None,
    }
}

#[test]
fn seek_variant_carries_position_ms() {
    let cmd = PipelineCommand::Seek { position_ms: 12345 };
    match cmd {
        PipelineCommand::Seek { position_ms } => assert_eq!(position_ms, 12345),
        _ => panic!("wrong variant"),
    }
}

#[test]
fn seek_does_not_collide_with_other_variants() {
    let variants = vec![
        PipelineCommand::Play {
            video: PathBuf::new(),
            audio: PathBuf::new(),
            start_position_ms: None,
        },
        PipelineCommand::Pause,
        PipelineCommand::Resume,
        PipelineCommand::Seek { position_ms: 0 },
        PipelineCommand::Stop,
        PipelineCommand::Shutdown,
        PipelineCommand::RecreateSender,
    ];
    assert_eq!(variants.len(), 7);
}

#[test]
fn play_command_clears_paused_state() {
    let mut l = PipelineLoop::new();
    l.step(Polled::Command(PipelineCommand::Pause));
    assert!(l.paused);
    match l.step(Polled::Command(play("song"))) {
        LoopStep::Decode { .. } => {}
        _ => panic!("a song is played"),
    }
    assert!(!l.paused, "cleared before the song is decoded");
}

#[test]
fn health_snapshot_variant_constructs_and_clones() {
    let now = 7_000_000_000u64;
    let ev: Event = PipelineEvent::HealthSnapshot {
        connections: 1,
        frames_submitted_total: 100,
        frames_submitted_last_5s: 30,
        observed_fps: 29_970_000,
        nominal_fps: 29_970_000,
        source_fps: 29_970_000,
        last_submit_ts: Some(now),
        last_heartbeat_ts: now,
        consecutive_bad_polls: 0,
        reported_state: PlaybackStateLabel::Playing,
        pacing: PacingStats::default(),
        audio: 0,
        loop_stats: LoopStats::default(),
    };
    let cloned = ev.clone();
    if let PipelineEvent::HealthSnapshot {
        connections,
        frames_submitted_last_5s,
        reported_state,
        ..
    } = cloned
    {
        assert_eq!(connections, 1);
        assert_eq!(frames_submitted_last_5s, 30);
        assert_eq!(reported_state, PlaybackStateLabel::Playing);
    } else {
        panic!("clone produced wrong variant");
    }
}

#[test]
fn where_nothing_decodes_every_song_fails_and_the_loop_goes_on() {
    let mut errors = 0;
    for cmd in [
        play("song-a"),
        PipelineCommand::Stop,
        PipelineCommand::Pause,
        play("song-b"),
        PipelineCommand::Resume,
        PipelineCommand::Seek { position_ms: 5000 },
        PipelineCommand::RecreateSender,
        play("song-c"),
    ] {
        let step: StubStep<f64, u32> = stub_step(Polled::Command(cmd));
        match step {
            StubStep::Report(PipelineEvent::Error(msg)) => {
                assert!(msg.contains("Windows"), "error should mention Windows");
                errors += 1;
            }
            StubStep::Ignore => {}
            _ => panic!("nothing else happens"),
        }
    }
    assert_eq!(errors, 3, "one per song");
    let step: StubStep<f64, u32> = stub_step(Polled::Command(PipelineCommand::Shutdown));
    assert!(matches!(step, StubStep::Exit));
    let step: StubStep<f64, u32> = stub_step(Polled::Closed);
    assert!(matches!(step, StubStep::Exit));
}

#[test]
fn a_pipeline_without_a_sender_says_so_and_waits_for_its_end() {
    let step: StartStep<f64, u32> = after_sender(SenderOutcome::NoBackend);
    match step {
        StartStep::Unusable { event: PipelineEvent::Error(msg) } => {
            assert_eq!(msg, "NDI SDK not available");
        }
        _ => panic!("no sender"),
    }
    let step: StartStep<f64, u32> = after_sender(SenderOutcome::Failed("in use".into()));
    match step {
        StartStep::Unusable { event: PipelineEvent::Error(msg) } => {
            assert_eq!(msg, "Failed to create NDI sender: in use");
        }
        _ => panic!("no sender"),
    }
    let step: StartStep<f64, u32> = after_sender(SenderOutcome::Ready(Some("h:5961".into())));
    match step {
        StartStep::Run { url } => assert_eq!(url.as_deref(), Some("h:5961")),
        _ => panic!("a sender"),
    }
    assert!(ends_unusable(&Polled::Closed));
    assert!(ends_unusable(&Polled::Command(PipelineCommand::Shutdown)));
    assert!(!ends_unusable(&Polled::Command(play("x"))));
    assert!(!ends_unusable(&Polled::Empty));
}

#[test]
fn the_grid_takes_the_clock_from_the_sender() {
    let off = clocking(false);
    assert!(off.clock_video && !off.clock_audio && off.audio_emitter);
    let on = clocking(true);
    assert!(!on.clock_video && !on.clock_audio && !on.audio_emitter);
}

#[test]
fn between_songs_commands_do_what_they_say() {
    let mut l = PipelineLoop::new();
    assert!(matches!(l.step(Polled::Empty), LoopStep::Idle));
    assert!(matches!(l.step(Polled::Closed), LoopStep::Exit));
    assert!(matches!(l.step(Polled::Command(PipelineCommand::Shutdown)), LoopStep::Exit));
    assert!(matches!(l.step(Polled::Command(PipelineCommand::Stop)), LoopStep::Black));
    assert!(matches!(l.step(Polled::Command(PipelineCommand::Pause)), LoopStep::Await));
    assert!(l.paused);
    let seek = Polled::Command(PipelineCommand::Seek { position_ms: 5 });
    assert!(matches!(l.step(seek), LoopStep::Await));
    assert!(matches!(l.step(Polled::Command(PipelineCommand::RecreateSender)), LoopStep::Await));
    assert!(l.paused, "a pause holds");
    assert!(matches!(l.step(Polled::Command(PipelineCommand::Resume)), LoopStep::Await));
    assert!(!l.paused);
}

#[test]
fn the_end_of_a_song_decides_what_follows() {
    let mut l = PipelineLoop { paused: true };
    let step: SongStep<f64, u32> = l.song_ended(DecodeResult::Ended);
    assert!(matches!(step, SongStep::Black { event: Some(PipelineEvent::Ended) }));
    assert!(!l.paused);
    let step: SongStep<f64, u32> = l.song_ended(DecodeResult::Stopped);
    assert!(matches!(step, SongStep::Black { event: None }));
    let step: SongStep<f64, u32> = l.song_ended(DecodeResult::Error("boom".into()));
    match step {
        SongStep::Black { event: Some(PipelineEvent::Error(msg)) } => assert_eq!(msg, "boom"),
        _ => panic!("an error is reported"),
    }
    let step: SongStep<f64, u32> = l.song_ended(DecodeResult::Shutdown);
    assert!(matches!(step, SongStep::Exit));
    let step: SongStep<f64, u32> = l.song_ended(DecodeResult::NewPlay {
        video: PathBuf::from("v"),
        audio: PathBuf::from("a"),
        start_position_ms: Some(9),
    });
    match step {
        SongStep::Decode { video, audio, start_position_ms } => {
            assert_eq!((video, audio), (PathBuf::from("v"), PathBuf::from("a")));
            assert_eq!(start_position_ms, Some(9));
        }
        _ => panic!("the next song is played"),
    }
}

#[test]
fn a_song_that_does_not_open_says_which_part() {
    assert_eq!(open_error(OpenStage::Video, "/v.mp4", "gone"), "failed to open video /v.mp4: gone");
    assert_eq!(open_error(OpenStage::Audio, "/a.flac", "no"), "failed to open audio /a.flac: no");
    assert_eq!(open_error(OpenStage::Pairing, "/x", "bad"), "SplitSyncedDecoder::new failed: bad");
}

#[test]
fn commands_in_a_song() {
    let mut paused = false;
    assert!(matches!(song_command(&mut paused, Polled::Empty), CommandStep::Go));
    let pause = Polled::Command(PipelineCommand::Pause);
    assert!(matches!(song_command(&mut paused, pause), CommandStep::Go));
    assert!(paused);
    let seek = Polled::Command(PipelineCommand::Seek { position_ms: 77 });
    assert!(matches!(song_command(&mut paused, seek), CommandStep::Seek { position_ms: 77 }));
    assert!(paused, "a seek does not resume");
    let resume = Polled::Command(PipelineCommand::Resume);
    assert!(matches!(song_command(&mut paused, resume), CommandStep::Go));
    assert!(!paused);
    let stop = Polled::Command(PipelineCommand::Stop);
    assert!(matches!(
        song_command(&mut paused, stop),
        CommandStep::Finish(DecodeResult::Stopped)
    ));
    assert!(matches!(
        song_command(&mut paused, Polled::Closed),
        CommandStep::Finish(DecodeResult::Shutdown)
    ));
    match song_command(&mut paused, Polled::Command(play("b"))) {
        CommandStep::Finish(DecodeResult::NewPlay { video, .. }) => {
            assert_eq!(video, PathBuf::from("/tmp/b_video.mp4"));
        }
        _ => panic!("the next song is taken over"),
    }
}

#[test]
fn a_song_reports_its_start_its_position_and_its_end() {
    let (mut song, started): (Song, Event) = Song::start(180_000, 10);
    assert!(matches!(started, PipelineEvent::Started { duration_ms: 180_000 }));
    let step: FrameStep<f64, u32> =
        song.decoded(Decoded::Frame { timestamp_ms: 40 }, 10 + POSITION_REPORT_NS - 1);
    assert!(matches!(step, FrameStep::Submit { position: None }));
    let step: FrameStep<f64, u32> =
        song.decoded(Decoded::Frame { timestamp_ms: 80 }, 10 + POSITION_REPORT_NS);
    assert!(matches!(
        step,
        FrameStep::Submit {
            position: Some(PipelineEvent::Position { position_ms: 80, duration_ms: 180_000 })
        }
    ));
    assert_eq!(song.frame_count, 2);
    let step: FrameStep<f64, u32> = song.decoded(Decoded::Failed("bad packet".into()), 0);
    match step {
        FrameStep::Finish { drain_audio: false, result: DecodeResult::Error(msg) } => {
            assert_eq!(msg, "Decode error at frame 2: bad packet");
        }
        _ => panic!("a failure ends the song"),
    }
    let step: FrameStep<f64, u32> = song.decoded(Decoded::End, 0);
    assert!(matches!(
        step,
        FrameStep::Finish { drain_audio: true, result: DecodeResult::Ended }
    ));
}

#[test]
fn audio_goes_to_its_thread_or_with_the_picture() {
    let r = push_or_collect_audio(true, vec![1, 2]);
    assert_eq!((r.push, r.submit), (vec![1, 2], vec![]));
    let r = push_or_collect_audio(false, vec![1, 2]);
    assert_eq!((r.push, r.submit), (vec![], vec![1, 2]));
}

#[test]
fn a_shallow_ring_near_the_end_is_no_lag() {
    assert_eq!(is_late_frame(None, 1_540, 0, u64::MAX), None);
    assert_eq!(
        is_late_frame(Some(1_540), 1_540, 0, u64::MAX),
        Some(LateQuery { depth_ms: 1_540, at_end: false })
    );
    assert_eq!(
        is_late_frame(Some(0), 1_540, 100, 100),
        Some(LateQuery { depth_ms: 0, at_end: true })
    );
    assert_eq!(
        is_late_frame(Some(0), 10, u64::MAX, u64::MAX),
        Some(LateQuery { depth_ms: 0, at_end: true })
    );
}

#[test]
fn the_tail_of_a_song_is_waited_for_within_its_time() {
    assert!(keep_draining(0, 10, false));
    assert!(!keep_draining(0, 10, true));
    assert!(!keep_draining(10, 10, false));
}

#[test]
fn a_block_wait_sleeps_up_to_the_margin() {
    assert_eq!(plan_block_wait(100, 100, 20), BlockWait::Now);
    assert_eq!(plan_block_wait(100, 120, 20), BlockWait::Spin);
    assert_eq!(plan_block_wait(100, 121, 20), BlockWait::Sleep { coarse_ns: 100 });
    assert_eq!(sleep_overshoot(105, 120, 20), 5);
}

#[test]
fn silence_is_logged_once_and_sends_once_a_minute() {
    let mut log = EmitLog::new();
    let first = log.emitted(EmittedBlock::Silence, 600_000_000, 600_000_030);
    assert_eq!(first, EmitReport { resumed_after: None, minute_call_max_100ns: Some(30) });
    let second = log.emitted(EmittedBlock::Silence, 600_000_100, 600_000_150);
    assert_eq!(second, EmitReport { resumed_after: None, minute_call_max_100ns: None });
    let third = log.emitted(EmittedBlock::Audio, 600_000_200, 600_000_201);
    assert_eq!(third, EmitReport { resumed_after: Some(2), minute_call_max_100ns: None });
    let fourth = log.emitted(EmittedBlock::Audio, 1_200_000_000, 1_200_000_001);
    assert_eq!(fourth, EmitReport { resumed_after: None, minute_call_max_100ns: Some(50) });
    assert_eq!(log.call_max_100ns, 0);
}

fn picture(timestamp_ms: u64) -> DecodedVideoFrame {
    DecodedVideoFrame { data: vec![1, 2, 3], width: 4, height: 2, stride: 8, timestamp_ms }
}

#[test]
fn a_paced_frame_counts_from_where_playback_began() {
    let f = to_paced_frame(picture(1_500), vec![7u8], 1_000);
    assert_eq!(f.pts_ns, 500_000_000);
    assert_eq!((f.width, f.height, f.stride), (4, 2, 8));
    assert_eq!((f.video, f.audio), (vec![1, 2, 3], vec![7]));
    assert_eq!(paced_pts_ns(10, 20), 0);
    assert_eq!(paced_pts_ns(i64::MAX as u64, 0), i64::MAX);
    assert_eq!(paced_pts_ns(u64::MAX, 0), -1_000_000);
    assert_eq!(paced_pts_ns(1 << 63, 0), i64::MIN);
}

#[test]
fn a_boundary_is_slept_for_and_spun_to() {
    let i = 333_333;
    assert_eq!(plan_boundary_wait(0, 50_000_000, i), BoundaryWait::Relatch);
    assert_eq!(plan_boundary_wait(0, 20_000, i), BoundaryWait::Spin);
    assert_eq!(plan_boundary_wait(0, 20_001, i), BoundaryWait::Sleep { coarse_ns: 100 });
    assert_eq!(
        plan_boundary_wait(0, 50_000_000, 0),
        BoundaryWait::Sleep { coarse_ns: 998_000_000 }
    );
    assert_eq!(plan_boundary_wait(5, 0, i), BoundaryWait::Spin);
    assert!(keep_spinning(0, 1, i) && keep_spinning(0, i, i));
    assert!(!keep_spinning(1, 1, i) && !keep_spinning(0, i + 1, i));
    assert!(keep_spinning(0, i + 1, 0));
}

#[test]
fn a_summary_is_what_the_song_added() {
    let base: PacingStats<f64> =
        PacingStats { seq: 100, repeats: 5, dropped: 9, ..Default::default() };
    let now: PacingStats<f64> = PacingStats {
        seq: 130,
        repeats: 7,
        dropped: 4,
        resyncs: 1,
        relatches: 2,
        ..Default::default()
    };
    assert_eq!(
        song_summary(&now, &base),
        SongSummary { emits: 30, repeats: 2, dropped: 0, resyncs: 1, relatches: 2 }
    );
}

#[test]
fn a_source_rate_is_in_millionths() {
    assert_eq!(source_rate(30_000, 1_001), 29_970_029);
    assert_eq!(source_rate(25, 1), 25_000_000);
    assert_eq!(source_rate(25, 0), 0);
}

#[test]
fn the_producer_follows_the_queue() {
    assert_eq!(Producer::start(Some(9_000), true), Producer { pts_offset_ms: 9_000, epoch: 0 });
    assert_eq!(Producer::start(Some(9_000), false), Producer { pts_offset_ms: 0, epoch: 0 });
    assert_eq!(Producer::start(None, true), Producer { pts_offset_ms: 0, epoch: 0 });
    let mut p = Producer::start(Some(9_000), true);
    match p.produced(Produced::Frame(picture(9_040), vec![1u8])) {
        Handed::Push { frame, decoded_ms, epoch } => {
            assert_eq!((frame.pts_ns, decoded_ms, epoch), (40_000_000, 9_040, 0));
        }
        Handed::EndOfStream => panic!("a frame"),
    }
    assert_eq!(p.answered(ProducerAction::Continue), ProducerStep::Decode);
    assert_eq!(
        p.answered(ProducerAction::Seek { position_ms: 60_000, epoch: 3 }),
        ProducerStep::SeekAndDecode { position_ms: 60_000 }
    );
    assert_eq!(p, Producer { pts_offset_ms: 60_000, epoch: 3 });
    assert!(matches!(p.produced(Produced::<u8>::End), Handed::EndOfStream));
    assert!(matches!(p.produced(Produced::<u8>::Failed), Handed::EndOfStream));
    assert_eq!(p.answered(ProducerAction::Stop), ProducerStep::Exit);
}

fn paced_song(start: Option<u64>) -> PacedSong {
    let opened = OpenReply::Opened { duration_ms: 200_000, source_fps: 24_000_000 };
    let r: Result<(PacedSong, Event), DecodeResult> = PacedSong::start(opened, start, 0);
    match r {
        Ok((song, PipelineEvent::Started { duration_ms: 200_000 })) => song,
        _ => panic!("the song opened"),
    }
}

#[test]
fn a_paced_song_opens_or_fails() {
    assert_eq!(paced_song(Some(5_000)).last_decoded_ms, 5_000);
    assert_eq!(paced_song(None).last_decoded_ms, 0);
    let r: Result<(PacedSong, Event), DecodeResult> =
        PacedSong::start(OpenReply::Failed("no file".into()), None, 0);
    match r {
        Err(DecodeResult::Error(msg)) => assert_eq!(msg, "no file"),
        _ => panic!("a failure"),
    }
    let r: Result<(PacedSong, Event), DecodeResult> = PacedSong::start(OpenReply::Gone, None, 0);
    match r {
        Err(DecodeResult::Error(msg)) => {
            assert_eq!(msg, "paced decode producer exited before open");
        }
        _ => panic!("a failure"),
    }
}

#[test]
fn commands_in_a_paced_song() {
    let mut s = paced_song(None);
    let pause = Polled::Command(PipelineCommand::Pause);
    assert!(matches!(s.command(pause), PacedCommand::Go));
    assert!(s.paused);
    assert_eq!(s.label(), PlaybackStateLabel::Paused);
    assert_eq!(s.standby(Served::Wait { until_100ns: 8 }), Some(8));
    assert_eq!(s.standby(Served::Emitted), None);
    let resume = Polled::Command(PipelineCommand::Resume);
    assert!(matches!(s.command(resume), PacedCommand::ResumeAudio));
    assert_eq!(s.label(), PlaybackStateLabel::Playing);
    let seek = Polled::Command(PipelineCommand::Seek { position_ms: 33_000 });
    assert!(matches!(s.command(seek), PacedCommand::Seek { position_ms: 33_000 }));
    assert_eq!(s.last_decoded_ms, 33_000);
    s.popped(33_040);
    assert_eq!(s.last_decoded_ms, 33_040);
    let stop = Polled::Command(PipelineCommand::Stop);
    assert!(matches!(
        s.command(stop),
        PacedCommand::Finish { result: DecodeResult::Stopped, reason: EndReason::Stop }
    ));
    assert!(matches!(
        s.command(Polled::Closed),
        PacedCommand::Finish { result: DecodeResult::Shutdown, reason: EndReason::Disconnected }
    ));
    assert!(matches!(
        s.command(Polled::Command(play("next"))),
        PacedCommand::Finish { result: DecodeResult::NewPlay { .. }, reason: EndReason::Next }
    ));
}

#[test]
fn a_paced_song_ends_when_all_is_shown_or_its_decoder_died() {
    let mut s = paced_song(None);
    let step: ServedStep<f64, u32> =
        s.served(Served::Wait { until_100ns: 4 }, true, false, true, u64::MAX);
    assert!(matches!(step, ServedStep::Wait { until_100ns: 4 }));
    let behind = Served::Reanchored { lag_slots: 9, until_100ns: 5 };
    let step: ServedStep<f64, u32> = s.served(behind, true, false, true, u64::MAX);
    assert!(matches!(step, ServedStep::Wait { until_100ns: 5 }));
    let step: ServedStep<f64, u32> = s.served(Served::Emitted, false, false, false, 1);
    assert!(matches!(step, ServedStep::Go { position: None }));
    let step: ServedStep<f64, u32> =
        s.served(Served::Repeated, true, true, true, POSITION_REPORT_NS);
    assert!(matches!(
        step,
        ServedStep::Go {
            position: Some(PipelineEvent::Position { position_ms: 0, duration_ms: 200_000 })
        }
    ));
    let step: ServedStep<f64, u32> =
        s.served(Served::Starved, true, false, true, POSITION_REPORT_NS);
    assert!(matches!(step, ServedStep::Finish { position: None, reason: EndReason::Ended }));
    let step: ServedStep<f64, u32> =
        s.served(Served::Repeated, false, true, true, POSITION_REPORT_NS);
    assert!(matches!(
        step,
        ServedStep::Finish { position: None, reason: EndReason::ProducerDied }
    ));
    assert_eq!(eos_tail(vec![1u8], 7), Some((vec![1], 7)));
    assert_eq!(eos_tail(Vec::<u8>::new(), 7), None);
}

#[test]
fn an_idle_pipeline_reports_once_or_fills_until_a_command() {
    assert_eq!(idle_step(false, false), IdleStep::ReportOnce);
    assert_eq!(idle_step(false, true), IdleStep::ReportOnce);
    assert_eq!(idle_step(true, false), IdleStep::Fill);
    assert_eq!(idle_step(true, true), IdleStep::Leave);
    assert_eq!(idle_label(false), PlaybackStateLabel::Idle);
    assert_eq!(idle_label(true), PlaybackStateLabel::Paused);
}
