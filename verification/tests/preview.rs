//! The picture preview.

use sp_playback::preview::{
    downscale_nv12_to_rgb, encode_jpeg_rgb, yuv_to_rgb, PreviewConfig, PreviewRegistry,
    PreviewShared, RawPreviewFrame,
};

const NOW: u64 = 50_000;

fn grey_nv12(_width: usize, height: usize, stride: usize) -> Vec<u8> {
    let y_size = stride * height;
    let uv_size = stride * (height / 2);
    let mut v = vec![0u8; y_size + uv_size];
    for b in v.iter_mut().take(y_size) {
        *b = 128;
    }
    for b in v.iter_mut().skip(y_size) {
        *b = 128;
    }
    v
}

fn shared(cfg: PreviewConfig) -> PreviewShared {
    PreviewShared::new(cfg, "test".into())
}

#[test]
fn downscale_preserves_aspect_and_never_upscales() {
    let nv12 = grey_nv12(1920, 1080, 1920);
    let f = downscale_nv12_to_rgb(1920, 1080, 1920, &nv12, 320).unwrap();
    assert_eq!((f.width, f.height), (320, 180), "16:9 downscale geometry");
    assert_eq!(f.rgb.len(), 320 * 180 * 3);

    let small = grey_nv12(4, 2, 4);
    let f2 = downscale_nv12_to_rgb(4, 2, 4, &small, 320).unwrap();
    assert_eq!((f2.width, f2.height), (4, 2));
}

#[test]
fn downscale_honours_stride_padding() {
    let nv12 = grey_nv12(6, 4, 8);
    let f = downscale_nv12_to_rgb(6, 4, 8, &nv12, 3).unwrap();
    assert_eq!((f.width, f.height), (3, 2));
    assert_eq!(f.rgb.len(), 3 * 2 * 3);
}

#[test]
fn downscale_rejects_degenerate_and_short_buffers() {
    assert!(downscale_nv12_to_rgb(0, 10, 10, &[0; 200], 320).is_none());
    assert!(downscale_nv12_to_rgb(10, 0, 10, &[0; 200], 320).is_none());
    assert!(
        downscale_nv12_to_rgb(10, 10, 8, &[0; 200], 320).is_none(),
        "stride<width"
    );
    assert!(downscale_nv12_to_rgb(1920, 1080, 1920, &[0; 10], 320).is_none());
}

#[test]
fn encode_produces_valid_jpeg_bytes() {
    let f = RawPreviewFrame {
        width: 8,
        height: 4,
        rgb: vec![120u8; 8 * 4 * 3],
    };
    let jpeg = encode_jpeg_rgb(&f, 60).unwrap();
    assert!(jpeg.len() > 100, "jpeg should be non-trivial");
    assert_eq!(&jpeg[0..2], &[0xFF, 0xD8], "JPEG SOI magic");
    assert_eq!(&jpeg[jpeg.len() - 2..], &[0xFF, 0xD9], "JPEG EOI magic");
}

#[test]
fn no_encode_when_unsubscribed() {
    let mut s = shared(PreviewConfig::default());
    let nv12 = grey_nv12(64, 64, 64);
    s.offer(NOW, 64, 64, 64, &nv12);
    assert!(
        s.pending.is_none(),
        "unsubscribed offer must not queue a frame"
    );
    assert!(!s.encode_pending_once(), "nothing to encode");
    assert!(s.latest_jpeg().is_none());
}

#[test]
fn subscribed_offer_queues_then_encodes() {
    let mut s = shared(PreviewConfig::default());
    let nv12 = grey_nv12(64, 64, 64);
    s.note_viewer_request(NOW);
    s.offer(NOW, 64, 64, 64, &nv12);
    assert!(
        s.pending.is_some(),
        "subscribed offer must queue a frame"
    );
    assert!(s.encode_pending_once(), "a queued frame is encoded");
    let jpeg = s.latest_jpeg().expect("jpeg published");
    assert_eq!(&jpeg[0..2], &[0xFF, 0xD8]);
    assert!(s.pending.is_none());
    assert!(!s.busy);
}

#[test]
fn offer_keeps_only_the_latest_frame() {
    let cfg = PreviewConfig {
        min_ingest_interval_ms: 0,
        ..PreviewConfig::default()
    };
    let mut s = shared(cfg);
    s.note_viewer_request(NOW);
    let a = grey_nv12(4, 2, 4);
    let mut b = grey_nv12(6, 2, 6);
    b[0] = 200;
    s.offer(NOW, 4, 2, 4, &a);
    s.offer(NOW, 6, 2, 6, &b);
    let pending = s.pending.clone().unwrap();
    assert_eq!(pending.width, 6, "the later offer wins (latest-wins)");
}

#[test]
fn offer_returns_immediately_and_drops_when_encoder_busy() {
    let cfg = PreviewConfig {
        min_ingest_interval_ms: 0,
        ..PreviewConfig::default()
    };
    let mut s = shared(cfg);
    s.note_viewer_request(NOW);
    s.busy = true;
    let nv12 = grey_nv12(64, 64, 64);
    s.offer(NOW, 64, 64, 64, &nv12);
    assert!(
        s.pending.is_none(),
        "a frame offered while the encoder is busy is dropped, not queued"
    );
    assert!(s.busy, "busy flag untouched by the dropped offer");
}

#[test]
fn ingest_rate_limits_within_the_interval() {
    let cfg = PreviewConfig {
        min_ingest_interval_ms: 10_000,
        ..PreviewConfig::default()
    };
    let mut s = shared(cfg);
    s.note_viewer_request(NOW);
    let nv12 = grey_nv12(4, 2, 4);
    s.offer(NOW, 4, 2, 4, &nv12);
    assert!(s.pending.is_some());
    s.pending = None;
    s.offer(NOW, 4, 2, 4, &nv12);
    assert!(
        s.pending.is_none(),
        "a second offer within the ingest interval is dropped"
    );
}

#[test]
fn registry_register_is_idempotent_and_get_finds_it() {
    let mut reg = PreviewRegistry::new();
    let a = reg.register(7);
    let b = reg.register(7);
    assert_eq!(a, b, "the same tap, not a second one");
    assert!(reg.get(7).is_some());
    assert!(reg.get(999).is_none());
    assert_eq!(reg.tap(a).shared.label, "playlist-7");
    reg.tap_mut(a).note_viewer_request(NOW);
    let again = reg.get(7).expect("still there");
    assert_eq!(reg.tap(again).shared.last_request_ms, NOW);
}

#[test]
fn colours_follow_the_limited_range() {
    assert_eq!(yuv_to_rgb(16, 128, 128), (0, 0, 0));
    assert_eq!(yuv_to_rgb(235, 128, 128), (255, 255, 255));
    assert_eq!(yuv_to_rgb(128, 128, 128), (130, 130, 130));
    assert_eq!(yuv_to_rgb(81, 90, 240), (255, 0, 0));
}

#[test]
fn an_empty_picture_has_no_jpeg() {
    let f = RawPreviewFrame { width: 0, height: 4, rgb: Vec::new() };
    assert_eq!(
        encode_jpeg_rgb(&f, 60),
        Err("Image dimensions must be non zero: 0x4".to_string())
    );
}

#[test]
fn a_short_picture_has_no_jpeg() {
    let f = RawPreviewFrame { width: 4, height: 2, rgb: vec![0u8; 23] };
    assert_eq!(
        encode_jpeg_rgb(&f, 60),
        Err("Image data too small for dimensions and color_type: 23 need at least 24".to_string())
    );
}

#[test]
fn a_jpeg_depends_on_its_picture_and_its_quality() {
    let mut rgb = vec![120u8; 16 * 16 * 3];
    for (i, v) in rgb.iter_mut().enumerate() {
        *v = (i * 7 % 251) as u8;
    }
    let f = RawPreviewFrame { width: 16, height: 16, rgb };
    let low = encode_jpeg_rgb(&f, 10).unwrap();
    let high = encode_jpeg_rgb(&f, 95).unwrap();
    assert!(low.len() < high.len());
    assert_ne!(high, f.rgb);
    assert_eq!(encode_jpeg_rgb(&f, 95).unwrap(), high);
}

#[test]
fn a_viewer_is_forgotten_after_its_time() {
    let mut s = shared(PreviewConfig::default());
    assert!(!s.is_subscribed(NOW));
    s.note_viewer_request(NOW);
    assert!(s.is_subscribed(NOW + s.cfg.viewer_ttl_ms - 1));
    assert!(!s.is_subscribed(NOW + s.cfg.viewer_ttl_ms + 1));
}

#[test]
fn a_viewer_reads_the_picture_that_was_offered() {
    let cfg = PreviewConfig::default();
    let mut s = shared(cfg);
    let nv12 = grey_nv12(640, 360, 640);
    s.note_viewer_request(NOW);
    assert!(s.offer(NOW, 640, 360, 640, &nv12).queued);
    assert!(s.encode_pending_once());
    let scaled = downscale_nv12_to_rgb(640, 360, 640, &nv12, cfg.max_width).unwrap();
    let expected = encode_jpeg_rgb(&scaled, cfg.jpeg_quality).unwrap();
    assert_eq!(s.latest_jpeg(), Some(&expected));
}

#[test]
fn a_picture_that_cannot_be_encoded_is_not_reported_as_encoded() {
    let cfg = PreviewConfig { max_width: 65_536, min_ingest_interval_ms: 0, ..PreviewConfig::default() };
    let mut s = shared(cfg);
    s.note_viewer_request(NOW);
    let small = grey_nv12(4, 2, 4);
    assert!(s.offer(NOW, 4, 2, 4, &small).queued);
    assert!(s.encode_pending_once());
    let published = s.latest_jpeg().cloned();
    assert!(published.is_some());

    // The encoder counts a side of 65536 as 0.
    let wide = grey_nv12(65_536, 2, 65_536);
    assert!(s.offer(NOW, 65_536, 2, 65_536, &wide).queued);
    assert!(!s.encode_pending_once());
    assert_eq!(s.latest_jpeg().cloned(), published);
    assert!(s.pending.is_none());
    assert!(!s.busy);
    assert!(!s.encode_pending_once(), "nothing waits");
}

#[test]
fn a_registered_tap_takes_its_first_frame() {
    let mut reg = PreviewRegistry::new();
    let other = reg.register(3);
    let slot = reg.register(7);
    assert_eq!(reg.register(7), slot);
    assert_eq!(reg.get(3), Some(other));
    assert_ne!(slot, other);
    let fresh = &reg.tap(slot).shared;
    assert!(!fresh.busy && !fresh.was_subscribed);
    assert_eq!((fresh.last_request_ms, fresh.last_offer_ms), (0, 0));
    assert_eq!(fresh.label, "playlist-7");

    let nv12 = grey_nv12(4, 2, 4);
    let tap = reg.tap_mut(slot);
    tap.note_viewer_request(NOW);
    assert!(tap.try_offer(NOW, 4, 2, 4, &nv12));
    assert!(tap.shared.encode_pending_once());
    assert!(reg.tap(slot).latest_jpeg().is_some());
    assert!(reg.tap(other).latest_jpeg().is_none());
}

#[test]
fn row_padding_and_what_follows_the_frame_do_not_show() {
    let clean = grey_nv12(6, 4, 8);
    let mut dirty = clean.clone();
    for row in dirty.chunks_mut(8) {
        row[6] = 255;
        row[7] = 0;
    }
    dirty.extend([9, 9, 9, 9, 9, 9, 9, 9, 9]);
    let a = downscale_nv12_to_rgb(6, 4, 8, &clean, 3).unwrap();
    let b = downscale_nv12_to_rgb(6, 4, 8, &dirty, 3).unwrap();
    assert_eq!((a.width, a.height), (b.width, b.height));
    assert_eq!(a.rgb, b.rgb);
}
