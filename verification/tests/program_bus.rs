//! The program bus: cuts, the order of boundaries, and the standby fill.

use sp_playback::genlock::{
    floor_boundary_100ns, interval_100ns, strict_next_boundary_100ns, GENLOCK_GRID_FPS,
};
use sp_playback::program_bus::{
    is_in_time, persisted_source, program_copy, restore_selected_source, OfferOutcome, ProgramBus,
    ProgramCore, ProgramJob, Take, PROGRAM_FILL_GRACE_SLOTS, PROGRAM_LIVE_WINDOW_100NS,
    PROGRAM_NDI_NAME, PROGRAM_PENDING_BOUND, PROGRAM_QUEUE_BOUND, SETTING_PROGRAM_SOURCE,
};
use sp_playback::program_output::{
    ProgramOutput, ProgramPair, PROGRAM_AUDIO_CHANNELS, PROGRAM_AUDIO_RATE_HZ,
};
use sp_playback::submit_handoff::SubmitJob;
use std::sync::Arc;

type Video = Arc<Vec<u8>>;

#[derive(Clone)]
struct Block {
    data: Vec<f32>,
    channels: u32,
    sample_rate: u32,
}

type Core = ProgramCore<Video, Block>;

type Bus = ProgramBus<Video, Block>;

const T0: i64 = 17_900_000_000_000_000;
const MS: i64 = 10_000;
const SRC_A: i64 = 11;
const SRC_B: i64 = 22;
const SRC_C: i64 = 33;

fn b(k: usize) -> i64 {
    let mut x = floor_boundary_100ns(T0, GENLOCK_GRID_FPS);
    for _ in 0..k {
        x = strict_next_boundary_100ns(x, GENLOCK_GRID_FPS);
    }
    x
}

fn grace() -> i64 {
    PROGRAM_FILL_GRACE_SLOTS * interval_100ns(GENLOCK_GRID_FPS)
}

fn frame(w: u32, h: u32) -> Video {
    Arc::new(vec![0u8; (w * h * 3 / 2) as usize])
}

fn block(level: f32) -> Vec<Block> {
    vec![Block { data: vec![level; 1600 * 2], channels: 2, sample_rate: 48_000 }]
}

fn job(w: u32, video: &Video, stamp: i64, level: f32) -> SubmitJob<Video, Block> {
    SubmitJob {
        width: w,
        height: 2,
        stride: w,
        video: video.clone(),
        audio: block(level),
        video_tc_100ns: stamp,
        audio_tc_100ns: stamp + 2 * MS,
    }
}

/// What the program sender put on the wire.
struct Wire {
    black: Video,
    calls: Vec<String>,
    video: Vec<(i64, Video)>,
    audio: Vec<(i64, Vec<f32>)>,
}

impl Wire {
    fn send(&mut self, out: &ProgramOutput, pair: ProgramPair<Video, Block>) {
        let blocks = match pair.audio {
            Some(blocks) => blocks,
            None => vec![Block {
                data: vec![0.0; out.silence_len()],
                channels: PROGRAM_AUDIO_CHANNELS,
                sample_rate: PROGRAM_AUDIO_RATE_HZ,
            }],
        };
        for b in blocks {
            self.calls.push(format!(
                "send_audio(42,sr={},ch={},spc={})",
                b.sample_rate,
                b.channels,
                b.data.len() / b.channels as usize
            ));
            self.audio.push((pair.audio_tc_100ns, b.data));
        }
        self.calls.push(format!("send_video_async(42,NV12,{}x{}", pair.width, pair.height));
        let picture = pair.video.unwrap_or_else(|| self.black.clone());
        self.video.push((pair.video_tc_100ns, picture));
    }

    fn video_timecodes(&self) -> Vec<i64> {
        self.video.iter().map(|v| v.0).collect()
    }

    fn audio_timecodes(&self) -> Vec<i64> {
        self.audio.iter().map(|a| a.0).collect()
    }
}

fn program() -> (Wire, ProgramOutput) {
    let out = ProgramOutput::new(2, 2);
    let black = Arc::new(vec![0u8; out.black_len()]);
    (Wire { black, calls: Vec::new(), video: Vec::new(), audio: Vec::new() }, out)
}

fn drain(core: &mut Core, wire: &mut Wire, out: &ProgramOutput) {
    while let Some(job) = core.take() {
        let pair = out.submit(job, T0);
        let stamp = pair.video_tc_100ns;
        wire.send(out, pair);
        core.record_submitted(stamp);
    }
}

fn video_dims(wire: &Wire) -> Vec<String> {
    wire.calls
        .iter()
        .filter(|c| c.starts_with("send_video_async("))
        .map(|c| c.split(',').nth(2).unwrap_or_default().to_string())
        .collect()
}

fn sends(wire: &Wire) -> Vec<String> {
    wire.calls.clone()
}

fn dims(spec: &[(&str, usize)]) -> Vec<String> {
    spec.iter()
        .flat_map(|&(d, n)| std::iter::repeat_n(d.to_string(), n))
        .collect()
}

fn stamps(range: std::ops::RangeInclusive<usize>) -> Vec<i64> {
    range.map(b).collect()
}

#[test]
fn a_cut_is_contiguous_with_one_pair_per_boundary() {
    let mut core = Core::new();
    core.select_initial(SRC_A);
    let (mut backend, out) = program();
    let (fa, fb) = (frame(4, 2), frame(8, 2));
    for k in 1..=12 {
        let now = b(k) + 5 * MS;
        let (a_owns, b_owns) = (k < 7, k >= 7);
        assert_eq!(
            core.offer(SRC_A, job(4, &fa, b(k), 0.1), now),
            if a_owns {
                OfferOutcome::Accepted
            } else {
                OfferOutcome::NotOwner
            },
            "A at b({k})"
        );
        assert_eq!(
            core.offer(SRC_B, job(8, &fb, b(k), 0.2), now),
            if b_owns {
                OfferOutcome::Accepted
            } else {
                OfferOutcome::NotOwner
            },
            "B at b({k})"
        );
        if k == 5 {
            assert!(core.cut(SRC_B, now), "a real cut is recorded");
            let st = core.status();
            assert_eq!(st.cut_boundary_100ns, Some(b(7)), "next boundary + 1 slot");
            assert_eq!((st.source, st.previous), (Some(SRC_B), Some(SRC_A)));
        }
        drain(&mut core, &mut backend, &out);
    }
    assert_eq!(
        backend.video_timecodes(),
        stamps(1..=12),
        "one frame per boundary, contiguous across the cut"
    );
    assert_eq!(video_dims(&backend), dims(&[("4x2", 6), ("8x2", 6)]));
    let sends = sends(&backend);
    assert_eq!(
        sends.len(),
        24,
        "exactly one audio + one video per boundary"
    );
    for pair in sends.chunks(2) {
        assert!(pair[0].starts_with("send_audio(42,sr=48000,ch=2,spc=1600)"));
        assert!(pair[1].starts_with("send_video_async(42,NV12,"));
    }
    let audio: Vec<i64> = (1..=12).map(|k| b(k) + 2 * MS).collect();
    assert_eq!(backend.audio_timecodes(), audio);
    let st = core.status();
    assert_eq!(st.health.forwarded, 12);
    assert_eq!(st.health.filled, 0);
    assert_eq!(st.health.late_dropped, 0);
    assert_eq!(st.health.cuts, 1);
    assert_eq!(st.health.submitted, 12);
    assert_eq!(st.health.last_stamp_100ns, b(12));
    assert_eq!(
        (st.source, st.previous),
        (Some(SRC_B), None),
        "once the cut boundary is served, A no longer owns anything"
    );
    assert!(!core.is_candidate(SRC_A), "A is pruned after the cut");
    assert!(core.is_candidate(SRC_B));
}

#[test]
fn the_new_source_waits_for_the_old_sources_last_boundary() {
    let mut core = Core::new();
    core.select_initial(SRC_A);
    let (mut backend, out) = program();
    let (fa, fb) = (frame(4, 2), frame(8, 2));
    for k in 1..=5 {
        core.offer(SRC_A, job(4, &fa, b(k), 0.1), b(k) + 5 * MS);
    }
    core.cut(SRC_B, b(5) + 5 * MS);
    let early = core.offer(SRC_B, job(8, &fb, b(7), 0.2), b(7) + 2 * MS);
    assert_eq!(early, OfferOutcome::Accepted);
    drain(&mut core, &mut backend, &out);
    assert_eq!(
        backend.video_timecodes(),
        stamps(1..=5),
        "b(7) waits for b(6)"
    );

    let late_a = core.offer(SRC_A, job(4, &fa, b(6), 0.1), b(7) + 20 * MS);
    assert_eq!(late_a, OfferOutcome::Accepted);
    drain(&mut core, &mut backend, &out);
    assert_eq!(backend.video_timecodes(), stamps(1..=7));
    assert_eq!(video_dims(&backend), dims(&[("4x2", 6), ("8x2", 1)]));
    assert_eq!(
        core.offer(SRC_A, job(4, &fa, b(7), 0.1), b(7) + 21 * MS),
        OfferOutcome::NotOwner
    );
    assert_eq!(core.status().health.filled, 0, "nothing was filled");
}

#[test]
fn a_cut_to_an_idle_source_carries_its_standby_pair() {
    let mut core = Core::new();
    core.select_initial(SRC_A);
    let (mut backend, out) = program();
    let fa = frame(4, 2);
    let b_black = frame(6, 2);
    for k in 1..=10 {
        let now = b(k) + 5 * MS;
        core.offer(SRC_A, job(4, &fa, b(k), 0.1), now);
        core.offer(SRC_B, job(6, &b_black, b(k), 0.0), now);
        if k == 5 {
            core.cut(SRC_B, now);
        }
        drain(&mut core, &mut backend, &out);
    }
    assert_eq!(backend.video_timecodes(), stamps(1..=10));
    assert_eq!(video_dims(&backend), dims(&[("4x2", 6), ("6x2", 4)]));
    let last = backend.video.last().expect("a video was sent");
    assert!(
        Arc::ptr_eq(&last.1, &b_black),
        "the program sends B's own standby black (zero copy)"
    );
    let silent = backend.audio.last().expect("audio was sent");
    assert!(
        silent.1.iter().all(|&s| s == 0.0),
        "and B's silent block"
    );
    assert_eq!(
        sends(&backend).len(),
        20,
        "one audio + one video per boundary"
    );
    assert_eq!(core.status().health.filled, 0, "no program fill was needed");
}

#[test]
fn a_source_that_stalls_at_the_cut_boundary_is_covered_by_the_standby_fill() {
    let mut core = Core::new();
    core.select_initial(SRC_A);
    let (mut backend, out) = program();
    let (fa, fb) = (frame(4, 2), frame(8, 2));
    for k in 1..=5 {
        core.offer(SRC_A, job(4, &fa, b(k), 0.1), b(k) + 5 * MS);
    }
    core.cut(SRC_B, b(5) + 5 * MS);
    core.offer(SRC_B, job(8, &fb, b(7), 0.2), b(7) + 5 * MS);
    assert_eq!(
        core.offer(SRC_B, job(8, &fb, b(7), 0.2), b(7) + 6 * MS),
        OfferOutcome::Late,
        "a duplicate of a waiting boundary is dropped"
    );
    core.offer(SRC_B, job(8, &fb, b(8), 0.2), b(8) + 5 * MS);
    core.release(b(6) + grace() - 1);
    drain(&mut core, &mut backend, &out);
    assert_eq!(
        backend.video_timecodes(),
        stamps(1..=5),
        "A is still inside its grace: nothing after b(5) yet"
    );

    core.release(b(6) + grace());
    drain(&mut core, &mut backend, &out);
    assert_eq!(
        backend.video_timecodes(),
        stamps(1..=8),
        "b(6) filled, B on"
    );
    assert_eq!(
        video_dims(&backend),
        dims(&[("4x2", 5), ("2x2", 1), ("8x2", 2)]),
        "b(6) is the program's own standby black"
    );
    let sends = sends(&backend);
    assert_eq!(sends.len(), 16, "the fill is a full audio + video pair");
    assert_eq!(sends[10], "send_audio(42,sr=48000,ch=2,spc=1600)");
    assert_eq!(backend.audio_timecodes()[5], T0);

    assert!(!core.is_candidate(SRC_A));
    assert_eq!(
        core.offer(SRC_A, job(4, &fa, b(6), 0.1), b(9) + 5 * MS),
        OfferOutcome::NotOwner
    );
    drain(&mut core, &mut backend, &out);
    assert_eq!(backend.video_timecodes().len(), 8);
    let h = core.status().health;
    assert_eq!((h.filled, h.forwarded, h.late_dropped), (1, 7, 1));
}

#[test]
fn a_new_source_whose_first_frame_after_the_cut_is_slow_is_waited_for() {
    let mut bus = Bus::new();
    bus.select_initial(SRC_A);
    let (fa, fb) = (frame(4, 2), frame(8, 2));
    for k in 1..=6 {
        let now = b(k) + 5 * MS;
        let a = job(4, &fa, b(k), 0.1);
        if let Some(copy) = program_copy(&mut bus, SRC_A, &a) {
            bus.offer(SRC_A, copy, now);
        }
        if k <= 5 {
            let bj = job(8, &fb, b(k), 0.2);
            assert!(program_copy(&mut bus, SRC_B, &bj).is_none(), "B is off program");
        }
        if k == 5 {
            bus.cut(SRC_B, now);
        }
    }
    bus.release_due(b(7) + MS);
    let bj = job(8, &fb, b(7), 0.2);
    let copy = program_copy(&mut bus, SRC_B, &bj).expect("B is on program now");
    assert_eq!(
        bus.offer(SRC_B, copy, b(7) + 10 * MS),
        OfferOutcome::Accepted
    );

    let mut sent = Vec::new();
    while let Take::Job(job) = bus.take_now() {
        let width = match &job {
            ProgramJob::Source(j) => j.width,
            ProgramJob::Standby { .. } => 0,
        };
        sent.push((job.stamp_100ns(), width));
    }
    let want: Vec<(i64, u32)> = (1..=7).map(|k| (b(k), if k < 7 { 4 } else { 8 })).collect();
    assert_eq!(sent, want, "b(7) is B's frame, not the program's black");
    let h = bus.status().health;
    assert_eq!((h.filled, h.late_dropped), (0, 0));
}

#[test]
fn a_cut_follows_the_sources_clock_when_the_api_clock_lags() {
    let mut core = Core::new();
    core.select_initial(SRC_A);
    let fa = frame(4, 2);
    for k in 1..=10 {
        core.offer(SRC_A, job(4, &fa, b(k), 0.1), b(k) + MS);
    }
    assert!(core.cut(SRC_B, b(5)));
    assert_eq!(core.status().cut_boundary_100ns, Some(b(12)));

    let mut core = Core::new();
    core.select_initial(SRC_A);
    core.offer(SRC_A, job(4, &fa, b(1), 0.1), b(1) + MS);
    assert!(core.cut(SRC_B, b(20)));
    assert_eq!(core.status().cut_boundary_100ns, Some(b(3)));
}

#[test]
fn a_cut_ignores_the_progress_of_sources_it_does_not_involve() {
    let mut core = Core::new();
    core.select_initial(SRC_A);
    let fa = frame(4, 2);
    for k in 1..=5 {
        core.offer(SRC_A, job(4, &fa, b(k), 0.1), b(k) + MS);
    }
    assert!(!core.touch(SRC_C, b(40)));
    assert!(!core.touch(SRC_B, b(5)));
    assert!(core.cut(SRC_B, b(5) + 5 * MS));
    assert_eq!(core.status().cut_boundary_100ns, Some(b(7)));
}

#[test]
fn an_offer_never_decides_a_missed_boundary_on_the_sources_own_clock() {
    let mut core = Core::new();
    core.select_initial(SRC_A);
    let (mut backend, out) = program();
    let fa = frame(4, 2);
    for k in 1..=5 {
        let ahead = b(k) + 500 * MS;
        assert_eq!(
            core.offer(SRC_A, job(4, &fa, b(k), 0.1), ahead),
            OfferOutcome::Accepted,
            "b({k})"
        );
        drain(&mut core, &mut backend, &out);
    }
    assert_eq!(backend.video_timecodes(), stamps(1..=5));
    assert_eq!(video_dims(&backend), dims(&[("4x2", 5)]));
    let h = core.status().health;
    assert_eq!((h.filled, h.late_dropped, h.resyncs), (0, 0, 0));
}

#[test]
fn a_source_that_jumps_more_than_eight_slots_resyncs_on_the_offer_path() {
    let mut core = Core::new();
    core.select_initial(SRC_A);
    let (mut backend, out) = program();
    let fa = frame(4, 2);
    core.offer(SRC_A, job(4, &fa, b(1), 0.1), b(1) + MS);
    core.offer(SRC_A, job(4, &fa, b(20), 0.1), b(20) + MS);
    drain(&mut core, &mut backend, &out);
    assert_eq!(backend.video_timecodes(), vec![b(1), b(20)]);
    let h = core.status().health;
    assert_eq!((h.resyncs, h.filled, h.forwarded), (1, 0, 2));
}

#[test]
fn cutting_back_before_the_cut_boundary_cancels_the_cut() {
    let mut core = Core::new();
    core.select_initial(SRC_A);
    assert!(core.cut(SRC_B, b(5) + 5 * MS));
    assert!(core.cut(SRC_A, b(5) + 6 * MS));
    assert_eq!(core.owner_of(b(7)), Some(SRC_A));
    assert!(!core.is_candidate(SRC_B));
    let st = core.status();
    assert_eq!((st.source, st.previous), (Some(SRC_A), None));
    assert_eq!(st.cut_boundary_100ns, None, "A owns every boundary again");
    assert_eq!(st.health.cuts, 2);
}

#[test]
fn with_no_source_every_boundary_is_filled_on_time() {
    let mut core = Core::new();
    let (mut backend, out) = program();
    core.release(b(1));
    drain(&mut core, &mut backend, &out);
    core.release(b(2) + MS);
    drain(&mut core, &mut backend, &out);
    core.release(b(2) + 2 * MS);
    drain(&mut core, &mut backend, &out);
    core.release(b(3) + MS);
    drain(&mut core, &mut backend, &out);
    assert_eq!(backend.video_timecodes(), stamps(1..=3));
    assert_eq!(video_dims(&backend), dims(&[("2x2", 3)]));
    assert_eq!(sends(&backend).len(), 6);
    let st = core.status();
    assert_eq!(
        (st.source, st.previous, st.cut_boundary_100ns),
        (None, None, None)
    );
    assert_eq!(st.health.filled, 3);
}

#[test]
fn a_selected_source_that_never_offered_is_filled_on_time() {
    let mut core = Core::new();
    core.select_initial(SRC_A);
    let (mut backend, out) = program();
    core.release(b(1) + MS);
    drain(&mut core, &mut backend, &out);
    assert_eq!(backend.video_timecodes(), vec![b(1)]);
    assert_eq!(
        core.status().cut_boundary_100ns,
        None,
        "a restored source owns every boundary"
    );
}

#[test]
fn an_owner_that_went_quiet_is_absent_after_the_live_window() {
    let mut core = Core::new();
    core.select_initial(SRC_A);
    core.offer(SRC_A, job(4, &frame(4, 2), b(1), 0.1), b(1) + MS);
    let far = b(31);
    assert_eq!(far, b(1) + PROGRAM_LIVE_WINDOW_100NS);
    assert!(
        !core.fill_due(far, b(1) + PROGRAM_LIVE_WINDOW_100NS),
        "exactly one live window after its last offer A is still live"
    );
    assert!(
        core.fill_due(far, b(1) + PROGRAM_LIVE_WINDOW_100NS + 1),
        "one tick later A is absent: fill on time"
    );
}

#[test]
fn a_live_owners_boundary_is_missed_exactly_one_grace_after_it() {
    let mut core = Core::new();
    core.select_initial(SRC_A);
    core.offer(SRC_A, job(4, &frame(4, 2), b(1), 0.1), b(1) + MS);
    assert!(!core.fill_due(b(2), b(2) + grace() - 1));
    assert!(core.fill_due(b(2), b(2) + grace()));
}

#[test]
fn a_boundary_is_never_filled_before_it_is_reached() {
    let core = Core::new();
    assert!(!core.fill_due(b(2), b(2) - 1));
    assert!(core.fill_due(b(2), b(2)));
}

#[test]
fn a_gap_in_the_owners_own_stream_is_filled_at_once() {
    let mut core = Core::new();
    core.select_initial(SRC_A);
    let (mut backend, out) = program();
    let fa = frame(4, 2);
    core.offer(SRC_A, job(4, &fa, b(1), 0.1), b(1) + MS);
    core.offer(SRC_A, job(4, &fa, b(4), 0.1), b(4) + MS);
    drain(&mut core, &mut backend, &out);
    assert_eq!(backend.video_timecodes(), stamps(1..=4));
    assert_eq!(
        video_dims(&backend),
        dims(&[("4x2", 1), ("2x2", 2), ("4x2", 1)])
    );
    assert_eq!(core.status().health.filled, 2);
    assert_eq!(
        core.offer(SRC_A, job(4, &fa, b(4), 0.1), b(4) + 2 * MS),
        OfferOutcome::Late,
        "a re-sent boundary that was already served is dropped"
    );
    assert_eq!(core.status().health.late_dropped, 1);
}

#[test]
fn more_than_eight_missed_slots_resync_instead_of_bursting() {
    let mut core = Core::new();
    let (mut backend, out) = program();
    core.release(b(1) + MS);
    drain(&mut core, &mut backend, &out);
    core.release(b(10) + MS);
    drain(&mut core, &mut backend, &out);
    assert_eq!(backend.video_timecodes(), stamps(1..=10));
    assert_eq!(core.status().health.resyncs, 0);
    core.release(b(21) + MS);
    drain(&mut core, &mut backend, &out);
    let mut want = stamps(1..=10);
    want.push(b(21));
    assert_eq!(backend.video_timecodes(), want);
    let h = core.status().health;
    assert_eq!((h.resyncs, h.filled), (1, 11));
}

#[test]
fn a_full_program_queue_coalesces_to_the_freshest_boundaries() {
    let mut core = Core::new();
    core.select_initial(SRC_A);
    let (mut backend, out) = program();
    let fa = frame(4, 2);
    for k in 1..=12 {
        core.offer(SRC_A, job(4, &fa, b(k), 0.1), b(k) + MS);
    }
    assert_eq!(core.queued(), PROGRAM_QUEUE_BOUND);
    drain(&mut core, &mut backend, &out);
    assert_eq!(backend.video_timecodes(), stamps(3..=12));
    assert_eq!(core.status().health.coalesced, 2);
}

#[test]
fn a_reorder_buffer_over_its_bound_forces_the_missing_boundary() {
    let mut core = Core::new();
    core.select_initial(SRC_A);
    let (fa, fb) = (frame(4, 2), frame(8, 2));
    for k in 1..=5 {
        core.offer(SRC_A, job(4, &fa, b(k), 0.1), b(k) + MS);
    }
    while core.take().is_some() {}
    core.cut(SRC_B, b(5) + MS);
    let now = b(7) + MS;
    for k in 7..7 + PROGRAM_PENDING_BOUND {
        core.offer(SRC_B, job(8, &fb, b(k), 0.2), now);
    }
    assert_eq!(
        core.queued(),
        0,
        "{PROGRAM_PENDING_BOUND} waiting frames still wait"
    );
    core.offer(SRC_B, job(8, &fb, b(7 + PROGRAM_PENDING_BOUND), 0.2), now);
    let h = core.status().health;
    assert_eq!(h.filled, 1, "one more forces b(6)");
    assert_eq!(h.forwarded, 5 + PROGRAM_PENDING_BOUND as u64 + 1);
    assert_eq!(core.queued(), PROGRAM_QUEUE_BOUND);
}

#[test]
fn ownership_switches_exactly_on_the_cut_boundary() {
    let mut core = Core::new();
    assert_eq!(core.owner_of(b(1)), None);
    core.select_initial(SRC_A);
    assert!(core.cut(SRC_B, b(5)), "on a boundary the next one is b(6)");
    assert_eq!(core.status().cut_boundary_100ns, Some(b(7)));
    assert_eq!(core.owner_of(b(7)), Some(SRC_B));
    assert_eq!(core.owner_of(b(7) - 1), Some(SRC_A));
    assert_eq!(core.owner_of(i64::MIN), Some(SRC_A));
}

#[test]
fn cutting_to_the_selected_source_records_nothing() {
    let mut core = Core::new();
    core.select_initial(SRC_A);
    assert!(!core.cut(SRC_A, b(5)));
    assert_eq!(core.status().health.cuts, 0);
    assert!(core.cut(SRC_B, b(5)));
    assert!(!core.cut(SRC_B, b(5) + MS));
    assert_eq!(core.status().health.cuts, 1);
}

#[test]
fn a_later_cut_replaces_one_on_the_same_boundary_and_chains_after_an_earlier_one() {
    let mut core = Core::new();
    core.select_initial(SRC_A);
    core.cut(SRC_B, b(5) + 5 * MS);
    core.cut(SRC_C, b(5) + 6 * MS);
    assert_eq!(core.owner_of(b(6)), Some(SRC_A));
    assert_eq!(core.owner_of(b(7)), Some(SRC_C));
    assert!(!core.is_candidate(SRC_B));
    let st = core.status();
    assert_eq!((st.source, st.previous), (Some(SRC_C), Some(SRC_A)));

    let mut core = Core::new();
    core.select_initial(SRC_A);
    core.cut(SRC_B, b(5) + 5 * MS);
    core.cut(SRC_C, b(6) + 5 * MS);
    assert_eq!(core.owner_of(b(6)), Some(SRC_A));
    assert_eq!(core.owner_of(b(7)), Some(SRC_B));
    assert_eq!(core.owner_of(b(8)), Some(SRC_C));
    let st = core.status();
    assert_eq!((st.source, st.previous), (Some(SRC_C), Some(SRC_B)));
    assert_eq!(st.cut_boundary_100ns, Some(b(8)));
}

#[test]
fn the_bus_wakes_the_sender_and_stops_after_draining() {
    let mut bus = Bus::new();
    assert!(matches!(bus.take_now(), Take::Idle));
    assert!(!bus.is_candidate(SRC_A));
    bus.select_initial(SRC_A);
    assert!(bus.is_candidate(SRC_A));
    let fa = frame(4, 2);
    let src = job(4, &fa, b(1), 0.1);
    let copy = program_copy(&mut bus, SRC_A, &src).expect("A can own a boundary");
    assert!(
        Arc::ptr_eq(&copy.video, &fa),
        "the copy is an Arc bump of the frame"
    );
    assert!(program_copy(&mut bus, SRC_B, &src).is_none(), "B pays nothing");
    assert_eq!(bus.offer(SRC_A, copy, b(1) + MS), OfferOutcome::Accepted);
    match bus.take_now() {
        Take::Job(job) => assert_eq!(job.stamp_100ns(), b(1)),
        _ => panic!("the forwarded boundary is queued"),
    }
    bus.release_due(b(2) + grace());
    bus.stop();
    match bus.take_now() {
        Take::Job(ProgramJob::Standby { stamp_100ns }) => assert_eq!(stamp_100ns, b(2)),
        _ => panic!("a stopped bus still hands out what is queued"),
    }
    assert!(matches!(bus.take_now(), Take::Stopped));
    bus.record_submitted(b(2));
    bus.set_connections(3);
    let st = bus.cut(SRC_B, b(3));
    assert_eq!(st.source, Some(SRC_B));
    assert_eq!(st.health.connections, 3);
    assert_eq!(st.health.submitted, 1);
    assert_eq!(st.health.last_stamp_100ns, b(2));
    assert_eq!(bus.status(), st);
}

#[test]
fn default_is_an_empty_program() {
    assert_eq!(Core::default().status(), Core::new().status());
    assert_eq!(Bus::default().status(), Bus::new().status());
    assert_eq!(Core::default().status().source, None);
}

#[test]
fn a_selected_source_reads_back_from_its_setting() {
    let mut bus = Bus::new();
    assert_eq!(restore_selected_source(&mut bus, None), None);
    assert_eq!(bus.status().source, None);

    assert_eq!(persisted_source(7), "7");
    assert_eq!(persisted_source(-12), "-12");
    assert_eq!(restore_selected_source(&mut bus, Some(persisted_source(7).as_str())), Some(7));
    assert_eq!(bus.status().source, Some(7));

    let mut bad = Bus::new();
    for raw in ["nope", "", "-", "7x", "9223372036854775808"] {
        assert_eq!(restore_selected_source(&mut bad, Some(raw)), None, "{raw}");
        assert_eq!(bad.status().source, None);
    }
    assert_eq!(restore_selected_source(&mut bad, Some(" 9 ")), Some(9));
    assert_eq!(SETTING_PROGRAM_SOURCE, "program_source");
    assert_eq!(bad.status().ndi_name, PROGRAM_NDI_NAME);
}

#[test]
fn a_stamp_off_the_grid_is_accepted_and_waits() {
    let mut core = Core::new();
    core.select_initial(SRC_A);
    let fa = frame(4, 2);
    assert_eq!(core.offer(SRC_A, job(4, &fa, b(1), 0.1), b(1)), OfferOutcome::Accepted);
    assert_eq!(core.offer(SRC_A, job(4, &fa, b(2) + 1, 0.1), b(2)), OfferOutcome::Accepted);
    assert_eq!(core.last_served(), Some(b(1)), "no boundary carries that stamp");
}

#[test]
fn a_bus_says_when_it_can_go_on() {
    let mut bus = Bus::new();
    assert!(bus.must_wait() && bus.is_timely() && bus.has_room());
    assert!(is_in_time(T0) && !is_in_time(i64::MAX));
    bus.release_due(b(1));
    assert!(!bus.must_wait());
    bus.stop();
    assert!(matches!(bus.take_now(), Take::Job(_)));
    assert!(!bus.must_wait(), "a stopped bus is not waited for");
}

#[test]
fn a_run_takes_ascending_boundaries_and_accounts_for_each() {
    let mut core = Core::new();
    let v = frame(4, 2);
    core.select_initial(SRC_A);
    let mut taken: Vec<i64> = Vec::new();
    for k in 0..200usize {
        // Both sources offer most boundaries, the second one a slot late; the program is
        // cut now and then, and the sender falls behind for a while.
        if k % 11 != 4 {
            core.offer(SRC_A, job(4, &v, b(k), 0.1), b(k));
        }
        if k > 0 && k % 13 != 5 {
            core.offer(SRC_B, job(4, &v, b(k - 1), 0.2), b(k));
        }
        if k % 40 == 17 {
            core.cut(SRC_B, b(k));
        }
        if k % 40 == 33 {
            core.cut(SRC_A, b(k));
        }
        core.release(b(k));
        if !(60..90).contains(&k) {
            while let Some(j) = core.take() {
                taken.push(j.stamp_100ns());
            }
        }
        let h = core.status().health;
        let queued = core.queued();
        assert!(queued <= PROGRAM_QUEUE_BOUND);
        assert_eq!(h.forwarded + h.filled, (taken.len() + queued) as u64 + h.coalesced);
    }
    assert!(taken.windows(2).all(|w| w[0] < w[1]));
    let h = core.status().health;
    assert!(h.forwarded > 0 && h.filled > 0 && h.coalesced > 0);
}

#[test]
fn the_sender_fills_nothing_ahead_of_its_clock() {
    let mut core = Core::new();
    let v = frame(4, 2);
    core.select_initial(SRC_A);
    core.offer(SRC_A, job(4, &v, b(0), 0.1), b(0));
    core.release(b(6));
    let mut stamps: Vec<i64> = Vec::new();
    while let Some(j) = core.take() {
        if let ProgramJob::Standby { stamp_100ns } = j {
            stamps.push(stamp_100ns);
        }
    }
    assert!(!stamps.is_empty());
    assert!(stamps.iter().all(|s| *s <= b(6)));
}
