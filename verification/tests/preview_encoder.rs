//! The encoder of the preview.

use sp_playback::encoder_args::{build_ffmpeg_args, parse_available_encoders, select_encoder};
use sp_playback::preview_encoder::{
    accept_step, child_ended, child_step, chosen_encoder, first_write_stamp, running,
    silence_chunk, AcceptEvent, AcceptStep, AudioFeeder, ChildStage, ChildStep, EncoderChoice,
    Monitor, RestartBudget, RunOutcome, StderrLog, SuperviseStep, Supervisor,
    SILENCE_CHUNK_SAMPLES, STDERR_MAX_LINES, VIEWER_TTL_MS,
};

#[test]
fn select_encoder_prefers_hardware_in_ladder_order() {
    assert_eq!(
        select_encoder(&["libx264".into(), "h264_qsv".into(), "h264_nvenc".into(),]),
        "h264_nvenc"
    );
    assert_eq!(
        select_encoder(&["libx264".into(), "h264_amf".into(), "h264_qsv".into()]),
        "h264_qsv"
    );
    assert_eq!(
        select_encoder(&["libx264".into(), "h264_amf".into()]),
        "h264_amf"
    );
    assert_eq!(select_encoder(&["libx264".into()]), "libx264");
    assert_eq!(select_encoder(&[]), "libx264");
}

#[test]
fn parse_available_encoders_keeps_only_ladder_names() {
    let sample = "\
Encoders:
 V..... = Video
 ------
 V....D h264_nvenc           NVIDIA NVENC H.264 encoder
 V....D h264_qsv             H.264 (Intel Quick Sync Video)
 V....D libx264              libx264 H.264 / AVC
 A....D aac                  AAC (Advanced Audio Coding)
 V....D hevc_nvenc           NVIDIA NVENC hevc encoder
";
    let found = parse_available_encoders(sample);
    assert_eq!(found, vec!["h264_nvenc", "h264_qsv", "libx264"]);
}

#[test]
fn parse_available_encoders_dedups_and_ignores_blank_lines() {
    let sample = " V....D libx264 x\n\n V....D libx264 y\n";
    assert_eq!(parse_available_encoders(sample), vec!["libx264"]);
    assert!(parse_available_encoders("").is_empty());
}

#[test]
fn ffmpeg_args_are_exact_for_libx264_with_low_latency_tuning() {
    let args = build_ffmpeg_args(5001, 5002, "libx264");
    let expected: Vec<String> = [
        "-hide_banner",
        "-loglevel",
        "error",
        "-use_wallclock_as_timestamps",
        "1",
        "-f",
        "rawvideo",
        "-pix_fmt",
        "nv12",
        "-s",
        "640x360",
        "-i",
        "tcp://127.0.0.1:5001",
        "-f",
        "f32le",
        "-ar",
        "48000",
        "-ac",
        "2",
        "-i",
        "tcp://127.0.0.1:5002",
        "-c:v",
        "libx264",
        "-preset",
        "ultrafast",
        "-tune",
        "zerolatency",
        "-b:v",
        "500k",
        "-maxrate",
        "500k",
        "-bufsize",
        "500k",
        "-g",
        "25",
        "-fps_mode",
        "cfr",
        "-r",
        "25",
        "-c:a",
        "aac",
        "-b:a",
        "64k",
        "-movflags",
        "+frag_keyframe+empty_moov+default_base_moof",
        "-frag_duration",
        "500000",
        "-flush_packets",
        "1",
        "-f",
        "mp4",
        "pipe:1",
    ]
    .iter()
    .map(|s| s.to_string())
    .collect();
    assert_eq!(args, expected);
}

#[test]
fn ffmpeg_args_fit_a_1mbps_remote_uplink() {
    for encoder in ["libx264", "h264_nvenc"] {
        let args = build_ffmpeg_args(6001, 6002, encoder);
        let has = |flag: &str, val: &str| args.windows(2).any(|w| w[0] == flag && w[1] == val);
        assert!(has("-b:v", "500k"), "video bitrate 500k for {encoder}");
        assert!(has("-maxrate", "500k"), "-maxrate 500k for {encoder}");
        assert!(has("-bufsize", "500k"), "-bufsize 500k for {encoder}");
        assert!(has("-b:a", "64k"), "audio bitrate 64k for {encoder}");
        assert!(
            !args.iter().any(|a| a == "1200k"),
            "the old 1200k video bitrate is gone for {encoder}"
        );
        assert!(
            !args.iter().any(|a| a == "128k"),
            "the old 128k audio bitrate is gone for {encoder}"
        );
    }
}

#[test]
fn ffmpeg_args_omit_libx264_tuning_for_hardware_encoders() {
    let args = build_ffmpeg_args(1, 2, "h264_nvenc");
    assert!(args.contains(&"h264_nvenc".to_string()));
    assert!(!args.contains(&"-preset".to_string()));
    assert!(!args.contains(&"zerolatency".to_string()));
    assert!(args.contains(&"tcp://127.0.0.1:1".to_string()));
    assert!(args.contains(&"tcp://127.0.0.1:2".to_string()));
    assert!(args.contains(&"640x360".to_string()));
    assert_eq!(args.last().unwrap(), "pipe:1");
}

#[test]
fn ffmpeg_args_never_contain_itsoffset() {
    for encoder in ["libx264", "h264_nvenc"] {
        let args = build_ffmpeg_args(7001, 7002, encoder);
        assert!(
            !args.iter().any(|a| a == "-itsoffset"),
            "no -itsoffset argument for {encoder}"
        );
    }
}

#[test]
fn only_the_video_input_is_wall_clock_stamped() {
    let args = build_ffmpeg_args(9001, 9002, "libx264");
    let stamps: Vec<usize> = args
        .iter()
        .enumerate()
        .filter(|(_, a)| *a == "-use_wallclock_as_timestamps")
        .map(|(i, _)| i)
        .collect();
    let video_i = args
        .iter()
        .position(|a| a == "tcp://127.0.0.1:9001")
        .expect("video input URL present");
    assert_eq!(stamps.len(), 1, "exactly one wall-clock-stamped input");
    assert!(stamps[0] < video_i, "and it is the video input");
}

#[test]
fn restart_budget_allows_three_per_rolling_minute_then_denies() {
    let mut b = RestartBudget::default();
    assert!(b.allow(0), "1st restart allowed");
    assert!(b.allow(1_000), "2nd allowed");
    assert!(b.allow(2_000), "3rd allowed");
    assert!(!b.allow(3_000), "4th within the minute is denied");
}

#[test]
fn restart_budget_evicts_after_the_window_exactly() {
    let mut b = RestartBudget::default();
    assert!(b.allow(0));
    assert!(b.allow(100));
    assert!(b.allow(200));
    assert!(!b.allow(59_999));
    assert!(b.allow(60_000));
    assert!(!b.allow(60_050));
}

#[test]
fn a_pinned_encoder_wins_over_the_probed_one() {
    let some = |s: &str| Some(s.to_string());
    let both = EncoderChoice { pinned: some("libx264"), probed: some("h264_qsv") };
    assert_eq!(chosen_encoder(&both), some("libx264"));
    let probed = EncoderChoice { pinned: None, probed: some("h264_qsv") };
    assert_eq!(chosen_encoder(&probed), some("h264_qsv"));
    assert_eq!(chosen_encoder(&EncoderChoice { pinned: None, probed: None }), None);
}

#[test]
fn a_silent_hardware_encoder_is_replaced_once() {
    let mut s = Supervisor::new("h264_nvenc".to_string());
    assert_eq!(s.after_run(RunOutcome::ChildExitedNoInit, true, 0), SuperviseStep::FallBack);
    assert_eq!((s.encoder.as_str(), s.allow_fallback), ("libx264", false));
    assert_eq!(
        s.after_run(RunOutcome::ChildExitedNoInit, true, 10),
        SuperviseStep::Respawn { close_relay: false }
    );
    let software = Supervisor::new("libx264".to_string());
    assert!(!software.allow_fallback);
}

#[test]
fn a_dead_child_is_started_again_within_the_budget() {
    let mut s = Supervisor::new("libx264".to_string());
    assert_eq!(s.after_run(RunOutcome::ViewersGone, true, 0), SuperviseStep::Stop);
    assert_eq!(s.after_run(RunOutcome::ChildExited, false, 0), SuperviseStep::GiveUp);
    for t in [0, 1, 2] {
        assert_eq!(
            s.after_run(RunOutcome::ChildExited, true, t),
            SuperviseStep::Respawn { close_relay: true }
        );
    }
    assert_eq!(s.after_run(RunOutcome::ChildExited, true, 3), SuperviseStep::GiveUp);
}

#[test]
fn a_run_goes_through_its_stages_and_stops_what_it_started() {
    let mut stage = ChildStage::BindVideo;
    let mut stages = 0;
    while stage != ChildStage::Monitor {
        let failed = child_step(stage, false);
        match failed {
            ChildStep::End { outcome, running: r, reset_relay } => {
                assert_eq!(r, running(stage));
                assert!(!reset_relay);
                let silent =
                    stage == ChildStage::AcceptVideo || stage == ChildStage::AcceptAudio;
                assert_eq!(outcome == RunOutcome::ChildExitedNoInit, silent);
            }
            ChildStep::Go { .. } => panic!("a failed stage ends the run"),
        }
        match child_step(stage, true) {
            ChildStep::Go { stage: next, reset_relay } => {
                assert_eq!(reset_relay, stage == ChildStage::Spawn);
                stage = next;
            }
            ChildStep::End { .. } => panic!("a stage that succeeds goes on"),
        }
        stages += 1;
    }
    assert_eq!(stages, 11);
    assert!(running(ChildStage::AcceptAudio).video_feeder);
    assert!(!running(ChildStage::AcceptAudio).audio_feeder);
    match child_ended(RunOutcome::ViewersGone) {
        ChildStep::End { outcome: RunOutcome::ViewersGone, running: r, reset_relay: true } => {
            assert!(r.child && r.stdout_reader);
        }
        _ => panic!("everything is stopped"),
    }
}

#[test]
fn a_child_is_watched_until_it_ends_or_nobody_looks() {
    let mut m = Monitor::new();
    assert_eq!(m.poll(false, false, true, 0), None);
    assert_eq!(m.poll(false, true, false, 1_000), None);
    assert_eq!(m.poll(false, true, true, 2_000), None, "a viewer came back");
    assert_eq!(m.poll(false, true, false, 3_000), None);
    assert_eq!(m.poll(false, true, false, 3_000 + VIEWER_TTL_MS - 1), None);
    assert_eq!(
        m.poll(false, true, false, 3_000 + VIEWER_TTL_MS),
        Some(RunOutcome::ViewersGone)
    );
    assert_eq!(m.poll(true, true, true, 0), Some(RunOutcome::ChildExited));
    assert_eq!(m.poll(true, false, true, 0), Some(RunOutcome::ChildExitedNoInit));
}

#[test]
fn a_connection_is_waited_for_until_the_deadline() {
    assert_eq!(accept_step(AcceptEvent::Connected, 99, 10), AcceptStep::Take);
    assert_eq!(accept_step(AcceptEvent::Failed, 0, 10), AcceptStep::GiveUp);
    assert_eq!(accept_step(AcceptEvent::Nothing, 9, 10), AcceptStep::Again);
    assert_eq!(accept_step(AcceptEvent::Nothing, 10, 10), AcceptStep::GiveUp);
}

#[test]
fn the_first_write_is_stamped_once() {
    assert_eq!(first_write_stamp(0, 0), 1);
    assert_eq!(first_write_stamp(0, 7), 7);
    assert_eq!(first_write_stamp(5, 7), 5);
}

#[test]
fn silence_is_written_in_pieces() {
    let mut left = 100_000usize;
    let mut pieces = 0;
    while left > 0 {
        left -= silence_chunk(left);
        pieces += 1;
    }
    assert_eq!(pieces, (100_000 + SILENCE_CHUNK_SAMPLES - 1) / SILENCE_CHUNK_SAMPLES);
}

#[test]
fn the_feeder_keeps_to_the_wall() {
    let (preroll, mut f) = AudioFeeder::start(1_000, 251_000, 100);
    assert_eq!(preroll, 33_600);
    assert_eq!(f.base_frames, 16_800);
    let w = f.block(0, 1_920);
    assert_eq!((w.pad_frames, w.samples), (0, 0..1_920));
    let pad = f.timeout(1_000_000);
    assert_eq!(pad as u64, 48_000 - 960);
    assert_eq!(f.wall_frames(1_000_000), f.written_frames);
    let burst = f.block(1_000_000, 96_000 * 2);
    assert_eq!(burst.pad_frames, 0);
    assert_eq!(burst.samples, (96_000 - 4_800) * 2..96_000 * 2);
    assert_eq!(f.report(1_000_000), (100, 980, 1_900));
    assert_eq!(AudioFeeder::start(0, 9_000_000, 0).0, 0, "no video yet, no gap");
    let late = AudioFeeder { base_frames: 0, written_frames: 0, padded_frames: 0, skipped_frames: 0 };
    assert_eq!(late.wall_frames(1 << 58), (1 << 58) / 1000 * 48 + (1 << 58) % 1000 * 48 / 1000);
}

#[test]
fn a_few_error_lines_are_shown_and_the_rest_counted() {
    let mut log = StderrLog::new();
    assert!(!log.line("   "));
    for _ in 0..STDERR_MAX_LINES {
        assert!(log.line("broken pipe"));
    }
    assert!(!log.line("broken pipe"));
    assert_eq!((log.shown, log.suppressed), (STDERR_MAX_LINES, 1));
}
