//! The preview stream.

use sp_playback::audio_align::{
    align_block, align_timeout, audio_preroll_samples, block_tail_range, stereo_samples_ms,
    to_stereo, AlignAction,
    ALIGN_PAD_THRESHOLD_MS, ALIGN_TARGET_AHEAD_MS, MAX_AHEAD_MS, PREVIEW_AUDIO_FRAMES_PER_MS,
};
use sp_playback::letterbox::{
    letterbox_nv12_into, placement_for, Placement, BLACK_Y, NEUTRAL_C, OUT_H, OUT_NV12_LEN, OUT_W,
};
use sp_playback::preview::{PreviewConfig, PreviewTap};
use sp_playback::preview_stream::{
    lead_ms_for, DecodeTaps, DecodedAudioFrame, DecodedVideoFrame, StreamOffer, StreamTap,
    AUDIO_CHANNEL_CAP, AUDIO_LOOKAHEAD_MS, POOL_MAX, RELAY_CAPACITY, VIDEO_CHANNEL_CAP,
};

fn solid_nv12(_sw: usize, sh: usize, stride: usize, y: u8, c: u8) -> Vec<u8> {
    let y_size = stride * sh;
    let uv_size = stride * (sh / 2);
    let mut v = vec![0u8; y_size + uv_size];
    v[..y_size].fill(y);
    v[y_size..].fill(c);
    v
}

#[test]
fn relay_capacity_is_four_fragments() {
    assert_eq!(RELAY_CAPACITY, 4);
}

#[test]
fn placement_16by9_fills_canvas_exactly() {
    let p = placement_for(1920, 1080);
    assert_eq!(
        p,
        Placement {
            w: 640,
            h: 360,
            off_x: 0,
            off_y: 0
        }
    );
    assert_eq!(
        placement_for(2560, 1440),
        Placement {
            w: 640,
            h: 360,
            off_x: 0,
            off_y: 0
        }
    );
}

#[test]
fn placement_4by3_letterboxes_with_side_bars() {
    let p = placement_for(1440, 1080);
    assert_eq!(
        p,
        Placement {
            w: 480,
            h: 360,
            off_x: 80,
            off_y: 0
        }
    );
}

#[test]
fn placement_tall_source_letterboxes_top_and_bottom() {
    let p = placement_for(720, 1280);
    assert_eq!(p.h, 360);
    assert_eq!(p.w, 202);
    assert_eq!(p.off_x, ((640 - 202) / 2) & !1);
    assert_eq!(p.off_y, 0);
}

#[test]
fn placement_is_always_even_aligned_and_within_canvas() {
    for &(w, h) in &[
        (1000u32, 999u32),
        (333, 777),
        (1, 1),
        (639, 361),
        (641, 359),
    ] {
        let p = placement_for(w, h);
        assert_eq!(p.w % 2, 0, "w even for {w}x{h}");
        assert_eq!(p.h % 2, 0, "h even for {w}x{h}");
        assert_eq!(p.off_x % 2, 0, "off_x even for {w}x{h}");
        assert_eq!(p.off_y % 2, 0, "off_y even for {w}x{h}");
        assert!(p.off_x + p.w <= OUT_W, "fits width {w}x{h}");
        assert!(p.off_y + p.h <= OUT_H, "fits height {w}x{h}");
    }
}

#[test]
fn placement_ultrawide_letterboxes_top_and_bottom() {
    let p = placement_for(3840, 1080);
    assert_eq!(
        p,
        Placement {
            w: 640,
            h: 180,
            off_x: 0,
            off_y: 90
        }
    );
}

#[test]
fn placement_extreme_aspect_clamps_to_min_2px() {
    assert_eq!(placement_for(1, 720).w, 2, "ultra-tall clamps width to 2");
    assert_eq!(
        placement_for(641, 1).h,
        2,
        "ultra-wide-thin clamps height to 2"
    );
}

#[test]
fn placement_degenerate_source_is_zero_image() {
    assert_eq!(placement_for(0, 100).w, 0);
    assert_eq!(placement_for(100, 0).h, 0);
}

#[test]
fn letterbox_16by9_fills_whole_canvas_with_the_image() {
    let src = solid_nv12(1920, 1080, 1920, 200, 128);
    let mut dst = vec![0u8; OUT_NV12_LEN];
    letterbox_nv12_into(1920, 1080, 1920, &src, &mut dst);
    let y_plane = (OUT_W * OUT_H) as usize;
    assert!(
        dst[..y_plane].iter().all(|&b| b == 200),
        "no black bars for 16:9"
    );
}

#[test]
fn letterbox_4by3_paints_black_side_bars_and_grey_centre() {
    let src = solid_nv12(1440, 1080, 1440, 200, 128);
    let mut dst = vec![0u8; OUT_NV12_LEN];
    letterbox_nv12_into(1440, 1080, 1440, &src, &mut dst);
    let ow = OUT_W as usize;
    let row = 180 * ow;
    assert_eq!(dst[row], BLACK_Y, "left black bar (x=0)");
    assert_eq!(dst[row + ow / 2], 200, "image centre (x=320)");
    assert_eq!(dst[row + ow - 1], BLACK_Y, "right black bar (x=639)");
    assert_eq!(dst[row + 80], 200, "first image column (x=80)");
    assert_eq!(dst[row + 79], BLACK_Y, "last bar column (x=79)");
}

#[test]
fn letterbox_rejects_short_source_leaving_black_canvas() {
    let mut dst = vec![7u8; OUT_NV12_LEN];
    letterbox_nv12_into(1920, 1080, 1920, &[0u8; 100], &mut dst);
    let y_plane = (OUT_W * OUT_H) as usize;
    assert!(dst[..y_plane].iter().all(|&b| b == BLACK_Y));
    assert!(dst[y_plane..].iter().all(|&b| b == NEUTRAL_C));
}

fn tap_of(label: &str, lead_ms: u32) -> StreamTap<f32> {
    StreamTap::new(label.to_string(), lead_ms)
}

#[test]
fn offer_video_is_a_noop_with_no_viewer() {
    let mut tap = tap_of("t", 0);
    let src = solid_nv12(64, 48, 64, 128, 128);
    tap.try_offer_video(64, 48, 64, &src);
    assert!(
        tap.shared().video_receiver().try_recv().is_err(),
        "no frame queued without a viewer"
    );
}

#[test]
fn offer_video_queues_a_fixed_canvas_frame_with_a_viewer() {
    let mut tap = tap_of("t", 0);
    tap.shared.viewer_joined();
    assert!(tap.shared().has_viewer());
    let src = solid_nv12(1920, 1080, 1920, 128, 128);
    tap.try_offer_video(1920, 1080, 1920, &src);
    let frame = tap
        .shared()
        .video_receiver()
        .try_recv()
        .expect("a frame is queued while watched");
    assert_eq!(frame.len(), OUT_NV12_LEN, "always the fixed 640x360 canvas");
}

#[test]
fn offer_audio_is_a_noop_with_no_viewer_and_queues_with_one() {
    let mut tap = tap_of("t", 0);
    let block = [0.1f32, -0.1, 0.2, -0.2];
    tap.try_offer_audio(&block, 48_000, 2);
    assert!(
        tap.shared().audio_receiver().try_recv().is_err(),
        "no viewer, no audio"
    );

    tap.shared.viewer_joined();
    tap.try_offer_audio(&block, 48_000, 2);
    let got = tap
        .shared()
        .audio_receiver()
        .try_recv()
        .expect("audio queued");
    assert_eq!(got, block.to_vec());
}

#[test]
fn viewer_guard_counts_up_and_saturates_down() {
    let mut tap = tap_of("t", 0);
    assert!(!tap.shared().has_viewer());
    tap.shared.viewer_joined();
    tap.shared.viewer_joined();
    assert_eq!(tap.shared().viewers, 2);
    tap.shared.viewer_left();
    assert!(tap.shared().has_viewer());
    tap.shared.viewer_left();
    assert!(
        !tap.shared().has_viewer(),
        "last viewer gone: offers early-out again"
    );
}

#[test]
fn try_claim_encoder_admits_exactly_one() {
    let mut tap = tap_of("t", 0);
    assert!(tap.shared.try_claim_encoder(), "first claim wins");
    assert!(!tap.shared.try_claim_encoder(), "second claim blocked");
    tap.shared.release_encoder();
    assert!(
        tap.shared.try_claim_encoder(),
        "claimable again after release"
    );
}

#[test]
fn shared_label_is_the_name_the_tap_was_built_with() {
    let tap = tap_of("playlist-7", 0);
    assert_eq!(tap.shared().label(), "playlist-7");
}

#[test]
fn shared_reports_its_configured_lead_ms() {
    assert_eq!(tap_of("t", 100).shared().lead_ms(), 100);
    assert_eq!(tap_of("t", 0).shared().lead_ms(), 0);
}

#[test]
fn lead_ms_for_sdk_path_is_the_emitter_lookahead() {
    let lookahead = AUDIO_LOOKAHEAD_MS;
    assert_eq!(lookahead, 1500);
    assert_eq!(lead_ms_for(false), lookahead);
}

#[test]
fn lead_ms_for_paced_path_has_no_lead() {
    assert_eq!(lead_ms_for(true), 0);
}

#[test]
fn a_viewer_guard_dropped_at_zero_viewers_stays_at_zero() {
    let mut tap = tap_of("t", 0);
    tap.shared.viewer_joined();
    tap.shared.viewers = 0;
    tap.shared.viewer_left();
    assert_eq!(tap.shared().viewers, 0);
}

#[test]
fn offer_frame_feeds_the_stream_video_and_audio_taps() {
    let mut taps: DecodeTaps<f32> = DecodeTaps {
        preview: PreviewTap::new(PreviewConfig::default(), "t".into()),
        stream: tap_of("t", 0),
    };
    taps.stream.shared.viewer_joined();
    let video = DecodedVideoFrame {
        data: solid_nv12(64, 48, 64, 128, 128),
        width: 64,
        height: 48,
        stride: 64,
        timestamp_ms: 0,
    };
    let audio = vec![DecodedAudioFrame {
        data: vec![0.25f32, -0.25, 0.5, -0.5],
        channels: 2,
        sample_rate: 48_000,
        timestamp_ms: 0,
    }];
    let offered = taps.offer_frame(0, &video, &audio);
    assert!(!offered.preview_queued, "nobody looks at the picture preview");
    assert_eq!(offered.video, StreamOffer::Sent);
    assert_eq!(offered.audio, vec![StreamOffer::Sent]);
    let frame = taps
        .stream
        .shared()
        .video_receiver()
        .try_recv()
        .expect("the video tap got the frame");
    assert_eq!(frame.len(), OUT_NV12_LEN);
    let got = taps
        .stream
        .shared()
        .audio_receiver()
        .try_recv()
        .expect("the audio tap got the block");
    assert_eq!(got, vec![0.25f32, -0.25, 0.5, -0.5]);
}

#[test]
fn to_stereo_upmixes_mono_by_duplicating_each_sample() {
    assert_eq!(
        to_stereo(&[1.0, 2.0, 3.0], 1),
        Some(vec![1.0, 1.0, 2.0, 2.0, 3.0, 3.0])
    );
    assert_eq!(to_stereo(&[0.5f32; 4], 1).map(|b| b.len()), Some(8));
}

#[test]
fn to_stereo_forwards_stereo_verbatim() {
    assert_eq!(
        to_stereo(&[1.0, -1.0, 0.5, -0.5], 2),
        Some(vec![1.0, -1.0, 0.5, -0.5])
    );
    assert_eq!(to_stereo::<f32>(&[], 2), Some(vec![]));
}

#[test]
fn to_stereo_drops_unexpected_channel_counts() {
    assert_eq!(to_stereo(&[1.0, 2.0, 3.0], 3), None);
    assert_eq!(to_stereo(&[1.0], 0), None);
    assert_eq!(to_stereo(&[1.0f32; 6], 6), None);
}

#[test]
fn audio_preroll_samples_is_the_interleaved_stereo_silence_count() {
    assert_eq!(audio_preroll_samples(0, 0), 0);
    assert_eq!(audio_preroll_samples(250, 100), 33_600);
    assert_eq!(audio_preroll_samples(0, 100), 9_600);
    assert_eq!(audio_preroll_samples(250, 0), 24_000);
}

#[test]
fn audio_preroll_samples_caps_the_connect_gap_at_5s() {
    assert_eq!(audio_preroll_samples(5_000, 0), 480_000);
    assert_eq!(audio_preroll_samples(5_001, 0), 480_000);
    assert_eq!(audio_preroll_samples(9_000, 100), 489_600);
    assert_eq!(audio_preroll_samples(9_000, 0), 480_000);
}

const F: u64 = 48;

#[test]
fn align_constants_are_the_design_values() {
    assert_eq!(ALIGN_PAD_THRESHOLD_MS, 150);
    assert_eq!(MAX_AHEAD_MS, 300);
    assert_eq!(ALIGN_TARGET_AHEAD_MS, 100);
    assert_eq!(PREVIEW_AUDIO_FRAMES_PER_MS, 48);
}

#[test]
fn align_block_on_time_block_is_written_verbatim() {
    let a = align_block(1_000 * F, 980 * F, (20 * F) as usize);
    assert_eq!(
        a,
        AlignAction {
            pad_frames: 0,
            skip_frames: 0
        }
    );
    let a = align_block(0, 0, 960);
    assert_eq!(
        a,
        AlignAction {
            pad_frames: 0,
            skip_frames: 0
        }
    );
    let a = align_block(1_000 * F, 1_000 * F + 1, 960);
    assert_eq!(
        a,
        AlignAction {
            pad_frames: 0,
            skip_frames: 0
        }
    );
}

#[test]
fn align_block_late_block_is_padded_up_to_the_wall_first() {
    let a = align_block(2_000 * F, 1_000 * F, 960);
    assert_eq!(
        a,
        AlignAction {
            pad_frames: (1_000 * F) as usize,
            skip_frames: 0
        }
    );
}

#[test]
fn align_block_pad_threshold_is_exclusive_at_150ms() {
    let a = align_block(1_000 * F, 850 * F, 960);
    assert_eq!(a.pad_frames, 0);
    let a = align_block(1_000 * F, 850 * F - 1, 960);
    assert_eq!(a.pad_frames, (150 * F + 1) as usize);
    assert_eq!(a.skip_frames, 0);
}

#[test]
fn align_block_burst_is_trimmed_so_it_lands_100ms_ahead() {
    let wall = 5_000 * F;
    let a = align_block(wall, wall, (1_000 * F) as usize);
    assert_eq!(
        a,
        AlignAction {
            pad_frames: 0,
            skip_frames: (900 * F) as usize
        }
    );
    let written = wall + a.pad_frames as u64 + (1_000 * F) - a.skip_frames as u64;
    assert_eq!(written, wall + 100 * F);
}

#[test]
fn align_block_skip_threshold_is_exclusive_at_300ms_ahead() {
    let wall = 5_000 * F;
    let a = align_block(wall, wall, (300 * F) as usize);
    assert_eq!(
        a,
        AlignAction {
            pad_frames: 0,
            skip_frames: 0
        }
    );
    let a = align_block(wall, wall, (300 * F + 1) as usize);
    assert_eq!(
        a,
        AlignAction {
            pad_frames: 0,
            skip_frames: (200 * F + 1) as usize
        }
    );
}

#[test]
fn align_block_skip_never_exceeds_the_block() {
    let wall = 5_000 * F;
    let a = align_block(wall, wall + 290 * F, (20 * F) as usize);
    assert_eq!(
        a,
        AlignAction {
            pad_frames: 0,
            skip_frames: (20 * F) as usize
        }
    );
    let a = align_block(wall, wall + 400 * F, 0);
    assert_eq!(
        a,
        AlignAction {
            pad_frames: 0,
            skip_frames: 0
        }
    );
}

#[test]
fn align_block_pads_then_trims_a_late_burst() {
    let wall = 5_000 * F;
    let a = align_block(wall, wall - 1_000 * F, (500 * F) as usize);
    assert_eq!(
        a,
        AlignAction {
            pad_frames: (1_000 * F) as usize,
            skip_frames: (400 * F) as usize
        }
    );
}

#[test]
fn align_timeout_pads_up_to_the_wall_when_no_block_arrived() {
    assert_eq!(align_timeout(1_000 * F, 800 * F), (200 * F) as usize);
    assert_eq!(align_timeout(60_000 * F, 0), (60_000 * F) as usize);
    assert_eq!(align_timeout(1_000 * F, 1_000 * F), 0);
    assert_eq!(align_timeout(1_000 * F, 1_100 * F), 0);
    assert_eq!(align_timeout(0, 0), 0);
    assert_eq!(align_timeout(1_000 * F, 850 * F), 0);
    assert_eq!(
        align_timeout(1_000 * F, 850 * F - 1),
        (150 * F + 1) as usize
    );
}

struct Lcg(u64);
impl Lcg {
    fn next(&mut self) -> u64 {
        self.0 = self
            .0
            .wrapping_mul(6_364_136_223_846_793_005)
            .wrapping_add(1_442_695_040_888_963_407);
        self.0 >> 33
    }
    fn range(&mut self, lo: u64, hi: u64) -> u64 {
        lo + self.next() % (hi - lo + 1)
    }
}

#[test]
fn align_keeps_written_within_300ms_of_the_wall_over_1000_mixed_steps() {
    let mut rng = Lcg(0x5eed_0184);
    let mut wall: u64 = 0;
    let mut written: u64 = 0;
    let bound = (300 * F) as i64;
    let (mut padded, mut skipped) = (0u64, 0u64);
    for step in 0..1000u64 {
        let kind = (step + rng.next() % 2) % 4;
        match kind {
            0 => {
                let b = rng.range(10, 50) * F;
                wall += b;
                let a = align_block(wall, written, b as usize);
                assert!(a.skip_frames as u64 <= b);
                written += a.pad_frames as u64 + b - a.skip_frames as u64;
                padded += a.pad_frames as u64;
                skipped += a.skip_frames as u64;
            }
            1 => {
                wall += rng.range(160, 1_500) * F;
                let b = rng.range(10, 50) * F;
                let a = align_block(wall, written, b as usize);
                assert!(a.skip_frames as u64 <= b);
                written += a.pad_frames as u64 + b - a.skip_frames as u64;
                padded += a.pad_frames as u64;
                skipped += a.skip_frames as u64;
            }
            2 => {
                wall += rng.range(0, 10) * F;
                let b = rng.range(400, 3_000) * F;
                let a = align_block(wall, written, b as usize);
                assert!(a.skip_frames as u64 <= b);
                written += a.pad_frames as u64 + b - a.skip_frames as u64;
                padded += a.pad_frames as u64;
                skipped += a.skip_frames as u64;
            }
            _ => {
                wall += 200 * F;
                let p = align_timeout(wall, written);
                written += p as u64;
                padded += p as u64;
            }
        }
        let diff = written as i64 - wall as i64;
        assert!(
            diff.abs() <= bound,
            "step {step} (kind {kind}): written − wall = {} ms exceeds ±300 ms",
            diff / F as i64
        );
    }
    assert!(padded > 0, "no step padded");
    assert!(skipped > 0, "no step trimmed a burst");
}

#[test]
fn stereo_samples_ms_converts_48k_interleaved_stereo() {
    assert_eq!(stereo_samples_ms(96_000), 1000);
    assert_eq!(stereo_samples_ms(96), 1);
    assert_eq!(stereo_samples_ms(95), 0);
    assert_eq!(stereo_samples_ms(0), 0);
}

#[test]
fn a_block_keeps_its_newest_whole_frames() {
    assert_eq!(block_tail_range(0, 6), 0..6);
    assert_eq!(block_tail_range(1, 6), 2..6);
    assert_eq!(block_tail_range(1, 7), 2..6);
    assert_eq!(block_tail_range(9, 6), 6..6);
}

#[test]
fn a_full_video_channel_gives_its_buffer_back() {
    let mut tap = tap_of("t", 0);
    tap.shared.viewer_joined();
    let src = solid_nv12(64, 48, 64, 90, 128);
    for _ in 0..VIDEO_CHANNEL_CAP {
        assert_eq!(tap.try_offer_video(64, 48, 64, &src), StreamOffer::Sent);
    }
    assert_eq!(tap.shared().pool.len(), 0);
    assert_eq!(tap.try_offer_video(64, 48, 64, &src), StreamOffer::Full);
    assert_eq!(tap.shared().pool.len(), 1, "the frame that found no room");
    let rx = tap.shared().video_receiver();
    for _ in 0..VIDEO_CHANNEL_CAP {
        assert!(rx.try_recv().is_ok());
    }
    assert!(rx.try_recv().is_err());
}

#[test]
fn a_full_audio_channel_drops_the_block() {
    let mut tap = tap_of("t", 0);
    tap.shared.viewer_joined();
    for _ in 0..AUDIO_CHANNEL_CAP {
        assert_eq!(tap.try_offer_audio(&[0.5, 0.5], 48_000, 2), StreamOffer::Sent);
    }
    assert_eq!(tap.try_offer_audio(&[0.5, 0.5], 48_000, 2), StreamOffer::Full);
    assert_eq!(
        tap.try_offer_audio(&[0.5, 0.5, 0.5], 48_000, 3),
        StreamOffer::Nothing,
        "no stereo, nothing to send"
    );
}

#[test]
fn a_spare_buffer_is_reused_and_the_pool_is_bounded() {
    let mut tap = tap_of("t", 0);
    for _ in 0..POOL_MAX + 3 {
        tap.shared.recycle(vec![0u8; OUT_NV12_LEN]);
    }
    assert_eq!(tap.shared().pool.len(), POOL_MAX);
    tap.shared.viewer_joined();
    let src = solid_nv12(64, 48, 64, 90, 128);
    tap.try_offer_video(64, 48, 64, &src);
    assert_eq!(tap.shared().pool.len(), POOL_MAX - 1);
}

#[test]
fn a_mono_source_is_letterboxed_and_upmixed_like_any_other() {
    let mut tap = tap_of("t", 0);
    tap.shared.viewer_joined();
    tap.try_offer_audio(&[0.5, -0.5], 48_000, 1);
    assert_eq!(
        tap.shared().audio_receiver().try_recv().ok(),
        Some(vec![0.5, 0.5, -0.5, -0.5])
    );
}

#[test]
fn without_a_viewer_any_size_is_passed_over() {
    let mut tap = tap_of("t", 0);
    assert_eq!(tap.try_offer_video(u32::MAX, u32::MAX, u32::MAX, &[]), StreamOffer::Nothing);
    assert_eq!(
        placement_for(0, u32::MAX),
        Placement { w: 0, h: 0, off_x: OUT_W / 2, off_y: OUT_H / 2 }
    );
}
