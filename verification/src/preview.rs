//! The low-rate JPEG preview of one output.
//!
//! Decoded frames are offered to the tap before they are sent on. Without a
//! viewer an offer does nothing. With one, at most one frame per interval is
//! scaled down and left for the encoder, the latest winning; while the encoder
//! is at work frames are dropped. Times are milliseconds of the tap's own clock,
//! which starts at 1: 0 stands for "never".

use std::collections::HashMap;
use vstd::arithmetic::div_mod::{lemma_fundamental_div_mod, lemma_fundamental_div_mod_converse};
use vstd::prelude::*;

verus! {

/// Width of the preview at most.
pub const DEFAULT_MAX_WIDTH: u32 = 320;

/// Milliseconds between two accepted frames at least.
pub const DEFAULT_MIN_INGEST_INTERVAL_MS: u64 = 200;

/// A viewer's request keeps the tap subscribed for this long.
pub const DEFAULT_VIEWER_TTL_MS: u64 = 3_000;

/// JPEG quality.
pub const DEFAULT_JPEG_QUALITY: u8 = 60;

/// A packed RGB frame that waits to be encoded.
#[derive(Debug, Clone, PartialEq, Eq)]
pub struct RawPreviewFrame {
    pub width: u32,
    pub height: u32,
    /// Three bytes per pixel, row by row.
    pub rgb: Vec<u8>,
}

/// Settings of a tap.
#[derive(Debug, Clone, Copy, PartialEq, Eq, Structural)]
pub struct PreviewConfig {
    pub max_width: u32,
    pub min_ingest_interval_ms: u64,
    pub viewer_ttl_ms: u64,
    pub jpeg_quality: u8,
}

impl PreviewConfig {
    /// The settings used in production.
    pub open spec fn standard() -> PreviewConfig {
        PreviewConfig {
            max_width: DEFAULT_MAX_WIDTH,
            min_ingest_interval_ms: DEFAULT_MIN_INGEST_INTERVAL_MS,
            viewer_ttl_ms: DEFAULT_VIEWER_TTL_MS,
            jpeg_quality: DEFAULT_JPEG_QUALITY,
        }
    }
}

impl Default for PreviewConfig {
    fn default() -> (r: Self)
        ensures
            r == PreviewConfig::standard(),
    {
        PreviewConfig {
            max_width: DEFAULT_MAX_WIDTH,
            min_ingest_interval_ms: DEFAULT_MIN_INGEST_INTERVAL_MS,
            viewer_ttl_ms: DEFAULT_VIEWER_TTL_MS,
            jpeg_quality: DEFAULT_JPEG_QUALITY,
        }
    }
}

/// A scaled colour sum as a byte: divided by 256 and limited to `0..=255`.
pub open spec fn channel_of(x: int) -> u8 {
    if x < 0 {
        0
    } else if x / 256 > 255 {
        255
    } else {
        (x / 256) as u8
    }
}

/// Limited-range BT.601 YUV as RGB, in integers.
pub open spec fn rgb_of(y: int, u: int, v: int) -> (u8, u8, u8) {
    let c = y - 16;
    let d = u - 128;
    let e = v - 128;
    (
        channel_of(298 * c + 409 * e + 128),
        channel_of(298 * c - 100 * d - 208 * e + 128),
        channel_of(298 * c + 516 * d + 128),
    )
}

fn channel(x: i32) -> (r: u8)
    ensures
        r == channel_of(x as int),
{
    if x < 0 {
        0
    } else if x / 256 > 255 {
        255
    } else {
        (x / 256) as u8
    }
}

/// Limited-range BT.601 YUV to RGB.
pub fn yuv_to_rgb(y: i32, u: i32, v: i32) -> (r: (u8, u8, u8))
    requires
        0 <= y <= 255,
        0 <= u <= 255,
        0 <= v <= 255,
    ensures
        r == rgb_of(y as int, u as int, v as int),
{
    let c: i32 = y - 16;
    let d: i32 = u - 128;
    let e: i32 = v - 128;
    (
        channel(298 * c + 409 * e + 128),
        channel(298 * c - 100 * d - 208 * e + 128),
        channel(298 * c + 516 * d + 128),
    )
}

/// Neutral chroma gives a grey.
pub proof fn law_neutral_chroma_is_grey(y: int)
    ensures
        rgb_of(y, 128, 128).0 == rgb_of(y, 128, 128).1,
        rgb_of(y, 128, 128).1 == rgb_of(y, 128, 128).2,
{
}

/// Width of the scaled frame: never wider than the source.
pub open spec fn scaled_width(width: int, max_width: int) -> int {
    if max_width < width {
        max_width
    } else {
        width
    }
}

/// Height of the scaled frame: the source's aspect ratio, rounded to nearest, at
/// least one.
pub open spec fn scaled_height(width: int, height: int, max_width: int) -> int {
    let h = (height * scaled_width(width, max_width) + width / 2) / width;
    if h < 1 {
        1
    } else {
        h
    }
}

/// Whether a frame can be scaled: it has pixels, and holds a whole NV12 image of
/// its declared size.
pub open spec fn scalable(width: int, height: int, stride: int, len: int, max_width: int) -> bool {
    &&& max_width > 0
    &&& crate::letterbox::drawable(width, height, stride, len)
}

/// The colour at source column `sx`, row `sy`. Chroma is shared by two columns
/// and two rows.
pub open spec fn source_rgb(sx: int, sy: int, height: int, stride: int, nv12: Seq<u8>) -> (
    u8,
    u8,
    u8,
) {
    let uv = stride * height + (sy / 2) * stride + (sx - sx % 2);
    let (u, v) = if uv + 1 < nv12.len() {
        (nv12[uv] as int, nv12[uv + 1] as int)
    } else {
        (128, 128)
    };
    rgb_of(nv12[sy * stride + sx] as int, u, v)
}

/// Byte `j` of the scaled frame.
pub open spec fn scaled_byte(
    j: int,
    width: int,
    height: int,
    stride: int,
    nv12: Seq<u8>,
    max_width: int,
) -> u8 {
    let out_w = scaled_width(width, max_width);
    let out_h = scaled_height(width, height, max_width);
    let px = j / 3;
    let (r, g, b) = source_rgb(
        (px % out_w) * width / out_w,
        (px / out_w) * height / out_h,
        height,
        stride,
        nv12,
    );
    if j % 3 == 0 {
        r
    } else if j % 3 == 1 {
        g
    } else {
        b
    }
}

/// The scaled frame's bytes.
pub open spec fn scaled_rgb(
    width: int,
    height: int,
    stride: int,
    nv12: Seq<u8>,
    max_width: int,
) -> Seq<u8> {
    Seq::new(
        (scaled_width(width, max_width) * scaled_height(width, height, max_width) * 3) as nat,
        |j: int| scaled_byte(j, width, height, stride, nv12, max_width),
    )
}

proof fn lemma_scaled_height(width: int, height: int, max_width: int)
    requires
        width > 0,
        height > 0,
        max_width > 0,
    ensures
        1 <= scaled_width(width, max_width) <= width,
        1 <= scaled_height(width, height, max_width) <= height,
        0 <= height * scaled_width(width, max_width) <= height * width,
        scaled_width(width, max_width) * scaled_height(width, height, max_width) <= width * height,
{
    let w = scaled_width(width, max_width);
    let n = height * w + width / 2;
    lemma_fundamental_div_mod(n, width);
    let q = n / width;
    let r = n % width;
    assert(0 <= height * w <= height * width) by (nonlinear_arith)
        requires
            0 <= w <= width,
            height > 0,
    ;
    assert(q <= height) by (nonlinear_arith)
        requires
            n == width * q + r,
            0 <= r < width,
            n <= height * width + width / 2,
            width > 0,
    ;
    let h = scaled_height(width, height, max_width);
    assert(w * h <= width * height) by (nonlinear_arith)
        requires
            0 <= w <= width,
            0 <= h <= height,
    ;
}

/// Scale an NV12 frame down to a small RGB frame, by nearest neighbour. The
/// aspect ratio is kept and nothing is scaled up. `None` for a frame without
/// pixels, a stride below the width, or a buffer too short for the size.
#[verifier::rlimit(40)]
pub fn downscale_nv12_to_rgb(
    width: u32,
    height: u32,
    stride: u32,
    nv12: &[u8],
    max_width: u32,
) -> (r: Option<RawPreviewFrame>)
    ensures
        r is Some <==> scalable(
            width as int,
            height as int,
            stride as int,
            nv12@.len() as int,
            max_width as int,
        ),
        r matches Some(f) ==> {
            &&& f.width == scaled_width(width as int, max_width as int)
            &&& f.height == scaled_height(width as int, height as int, max_width as int)
            &&& f.rgb@ == scaled_rgb(
                width as int,
                height as int,
                stride as int,
                nv12@,
                max_width as int,
            )
        },
{
    let (stride_us, sw, sh): (usize, usize, usize) = (
        stride as usize,
        width as usize,
        height as usize,
    );
    if max_width == 0 || !crate::letterbox::is_drawable(sw, sh, stride_us, nv12.len()) {
        return None;
    }
    proof {
        lemma_scaled_height(width as int, height as int, max_width as int);
        assert(width * height <= stride * height) by (nonlinear_arith)
            requires
                width <= stride,
                0 <= height,
        ;
        assert(0 <= stride * (height / 2)) by (nonlinear_arith)
            requires
                0 <= stride,
                0 <= height,
        ;
        assert(width <= width * height) by (nonlinear_arith)
            requires
                0 <= width,
                1 <= height,
        ;
        assert(height * width == width * height) by (nonlinear_arith);
    }
    let out_w: usize = if max_width < width {
        max_width as usize
    } else {
        sw
    };
    let rounded: usize = ((sh as u128 * out_w as u128 + (sw / 2) as u128) / sw as u128) as usize;
    let out_h: usize = if rounded < 1 {
        1
    } else {
        rounded
    };
    let mut rgb: Vec<u8> = Vec::new();
    let mut oy: usize = 0;
    while oy < out_h
        invariant
            scale_facts(width, height, stride, nv12@, max_width, out_w as int, out_h as int),
            (stride_us, sw, sh) == (stride as usize, width as usize, height as usize),
            oy <= out_h,
            rgb@.len() == oy * out_w * 3,
            forall|j: int|
                0 <= j < rgb@.len() ==> #[trigger] rgb@[j] == scaled_byte(
                    j,
                    width as int,
                    height as int,
                    stride as int,
                    nv12@,
                    max_width as int,
                ),
        decreases out_h - oy,
    {
        let sy: usize = crate::letterbox::scaled(oy, sh, out_h);
        proof {
            crate::letterbox::lemma_luma_index(
                sy as int,
                0,
                width as int,
                height as int,
                stride as int,
                nv12@.len() as int,
            );
            assert(0 <= (sy / 2) * stride <= stride * (height / 2)) by (nonlinear_arith)
                requires
                    0 <= sy <= height,
                    0 <= stride,
            ;
            assert(width <= width * height) by (nonlinear_arith)
                requires
                    0 <= width,
                    1 <= height,
            ;
            assert(height * stride == stride * height) by (nonlinear_arith);
        }
        let y_row: usize = sy * stride_us;
        let uv_row: usize = sh * stride_us + (sy / 2) * stride_us;
        let mut ox: usize = 0;
        while ox < out_w
            invariant
                scale_facts(width, height, stride, nv12@, max_width, out_w as int, out_h as int),
                (stride_us, sw, sh) == (stride as usize, width as usize, height as usize),
                oy < out_h,
                ox <= out_w,
                sy == oy * height / out_h as int,
                0 <= sy < height,
                y_row == sy * stride,
                uv_row == stride * height + (sy / 2) * stride,
                uv_row <= nv12@.len(),
                rgb@.len() == (oy * out_w + ox) * 3,
                forall|j: int|
                    0 <= j < rgb@.len() ==> #[trigger] rgb@[j] == scaled_byte(
                        j,
                        width as int,
                        height as int,
                        stride as int,
                        nv12@,
                        max_width as int,
                    ),
            decreases out_w - ox,
        {
            let sx: usize = crate::letterbox::scaled(ox, sw, out_w);
            proof {
                crate::letterbox::lemma_luma_index(
                    sy as int,
                    sx as int,
                    width as int,
                    height as int,
                    stride as int,
                    nv12@.len() as int,
                );
            }
            let y: i32 = nv12[y_row + sx] as i32;
            let col: usize = sx - sx % 2;
            let left: usize = nv12.len() - uv_row;
            let (u, v): (i32, i32) = if col < left && col + 1 < left {
                (nv12[uv_row + col] as i32, nv12[uv_row + col + 1] as i32)
            } else {
                (128, 128)
            };
            let (r, g, b): (u8, u8, u8) = yuv_to_rgb(y, u, v);
            let ghost at = (oy * out_w + ox) as int;
            rgb.push(r);
            rgb.push(g);
            rgb.push(b);
            proof {
                lemma_fundamental_div_mod_converse(at, out_w as int, oy as int, ox as int);
                assert((at * 3) / 3 == at && (at * 3) % 3 == 0);
                assert((at * 3 + 1) / 3 == at && (at * 3 + 1) % 3 == 1);
                assert((at * 3 + 2) / 3 == at && (at * 3 + 2) % 3 == 2);
            }
            ox = ox + 1;
        }
        proof {
            assert((oy + 1) * out_w == oy * out_w + out_w) by (nonlinear_arith);
        }
        oy = oy + 1;
    }
    proof {
        assert(out_h * out_w * 3 == out_w * out_h * 3) by (nonlinear_arith);
        assert(rgb@ =~= scaled_rgb(
            width as int,
            height as int,
            stride as int,
            nv12@,
            max_width as int,
        ));
    }
    Some(RawPreviewFrame { width: out_w as u32, height: out_h as u32, rgb })
}

/// What the scaling loops know of the frame.
spec fn scale_facts(
    width: u32,
    height: u32,
    stride: u32,
    nv12: Seq<u8>,
    max_width: u32,
    out_w: int,
    out_h: int,
) -> bool {
    &&& scalable(width as int, height as int, stride as int, nv12.len() as int, max_width as int)
    &&& nv12.len() <= usize::MAX
    &&& out_w == scaled_width(width as int, max_width as int)
    &&& out_h == scaled_height(width as int, height as int, max_width as int)
    &&& 1 <= out_w <= width
    &&& 1 <= out_h <= height
    &&& width * height <= stride * height <= nv12.len()
    &&& out_w * out_h <= nv12.len()
}

/// The colour is that of limited-range BT.601 to within one level: red, green and
/// blue each lie less than one level from the standard's sum, brought into a byte.
/// The standard's factors are written in millionths.
pub proof fn law_colours_are_bt601(y: int, u: int, v: int)
    requires
        0 <= y <= 255,
        0 <= u <= 255,
        0 <= v <= 255,
    ensures
        ({
            let (r, g, b) = rgb_of(y, u, v);
            let red = 1_164_383 * (y - 16) + 1_596_027 * (v - 128);
            let green = 1_164_383 * (y - 16) - 391_762 * (u - 128) - 812_968 * (v - 128);
            let blue = 1_164_383 * (y - 16) + 2_017_232 * (u - 128);
            &&& level_of(red, r)
            &&& level_of(green, g)
            &&& level_of(blue, b)
        }),
{
}

/// `level` is less than one level away from `sum`, which is in millionths of a level;
/// sums below the first level or above the last lie at the ends.
pub open spec fn level_of(sum: int, level: u8) -> bool {
    &&& level == 0 || 1_000_000 * level < sum + 1_000_000
    &&& level == 255 || sum < 1_000_000 * level + 1_000_000
}

/// `level` is the whole part of `sum` 256ths, brought into a byte.
pub open spec fn whole_level(sum: int, level: u8) -> bool {
    &&& level == 0 || 256 * level <= sum
    &&& level == 255 || sum < 256 * level + 256
}

/// The colour is the standard's sum with its factors in 256ths, rounded to the nearest
/// level: 298 for luma, 409 and 208 for V, 516 and 100 for U.
pub proof fn law_colours_are_rounded_to_the_nearest_level(y: int, u: int, v: int)
    ensures
        ({
            let (r, g, b) = rgb_of(y, u, v);
            let half = 298 * (y - 16) + 128;
            &&& whole_level(half + 409 * (v - 128), r)
            &&& whole_level(half - 100 * (u - 128) - 208 * (v - 128), g)
            &&& whole_level(half + 516 * (u - 128), b)
        }),
{
}

/// V draws a colour to red and away from green, U draws it to blue and away from
/// green; V has no part in blue and U none in red.
pub proof fn law_each_chroma_draws_its_own_colour(y: int, u: int, v: int, more: int)
    requires
        more >= 0,
    ensures
        rgb_of(y, u, v).0 <= rgb_of(y, u, v + more).0,
        rgb_of(y, u, v).1 >= rgb_of(y, u, v + more).1,
        rgb_of(y, u, v).2 == rgb_of(y, u, v + more).2,
        rgb_of(y, u, v).0 == rgb_of(y, u + more, v).0,
        rgb_of(y, u, v).1 >= rgb_of(y, u + more, v).1,
        rgb_of(y, u, v).2 <= rgb_of(y, u + more, v).2,
{
}

/// More luma is never darker.
pub proof fn law_luma_is_brightness(y: int, u: int, v: int, more: int)
    requires
        more >= 0,
    ensures
        rgb_of(y, u, v).0 <= rgb_of(y + more, u, v).0,
        rgb_of(y, u, v).1 <= rgb_of(y + more, u, v).1,
        rgb_of(y, u, v).2 <= rgb_of(y + more, u, v).2,
{
}

/// A colour with V above neutral and U neutral has more red than blue, unless both
/// lie at the same end; with U above neutral and V neutral it is the other way round.
pub proof fn law_v_is_red_and_u_is_blue(y: int, more: int)
    requires
        more > 0,
    ensures
        ({
            let (r, _, b) = rgb_of(y, 128, 128 + more);
            r > b || (r == 0 && b == 0) || (r == 255 && b == 255)
        }),
        ({
            let (r, _, b) = rgb_of(y, 128 + more, 128);
            b > r || (r == 0 && b == 0) || (r == 255 && b == 255)
        }),
{
}

/// The scaled frame keeps the source's aspect ratio to within half a row, and has at
/// least one row.
pub proof fn law_scaling_keeps_the_aspect_ratio(width: int, height: int, max_width: int)
    requires
        width > 0,
        height > 0,
        max_width > 0,
    ensures
        ({
            let w = scaled_width(width, max_width);
            let h = scaled_height(width, height, max_width);
            &&& h >= 1
            &&& w == width || w == max_width
            &&& 2 * (height * w - h * width) <= width
            &&& h == 1 || 2 * (h * width - height * w) <= width
        }),
{
    let w = scaled_width(width, max_width);
    let n = height * w + width / 2;
    let q = n / width;
    lemma_scaled_height(width, height, max_width);
    lemma_fundamental_div_mod(n, width);
    assert(q * width <= n < q * width + width) by (nonlinear_arith)
        requires
            n == width * q + n % width,
            0 <= n % width < width,
    ;
    assert(0 <= q) by (nonlinear_arith)
        requires
            0 <= n < q * width + width,
            width > 0,
    ;
    if q < 1 {
        assert(q * width == 0) by (nonlinear_arith)
            requires
                q == 0,
        ;
    }
}

/// Every pixel of the scaled frame is the source's pixel at the same relative place,
/// in the colour of that pixel's luma and of the chroma pair that it shares with its
/// neighbours, U before V. So nothing is mirrored, and the top row is the top row.
pub proof fn law_the_scaled_frame_shows_the_source(
    ox: int,
    oy: int,
    row: int,
    col: int,
    width: int,
    height: int,
    stride: int,
    nv12: Seq<u8>,
    max_width: int,
)
    requires
        scalable(width, height, stride, nv12.len() as int, max_width),
        0 <= ox < scaled_width(width, max_width),
        0 <= oy < scaled_height(width, height, max_width),
        row * scaled_height(width, height, max_width) <= oy * height < (row + 1) * scaled_height(
            width,
            height,
            max_width,
        ),
        col * scaled_width(width, max_width) <= ox * width < (col + 1) * scaled_width(
            width,
            max_width,
        ),
    ensures
        ({
            let out = scaled_rgb(width, height, stride, nv12, max_width);
            let at = 3 * (oy * scaled_width(width, max_width) + ox);
            let y = nv12[row * stride + col] as int;
            let pair = height * stride + (row / 2) * stride + 2 * (col / 2);
            &&& 0 <= at && at + 2 < out.len()
            &&& pair + 1 < nv12.len() ==> (out[at], out[at + 1], out[at + 2]) == rgb_of(
                y,
                nv12[pair] as int,
                nv12[pair + 1] as int,
            )
            &&& pair + 1 >= nv12.len() ==> (out[at], out[at + 1], out[at + 2]) == rgb_of(
                y,
                128,
                128,
            )
        }),
{
    let w = scaled_width(width, max_width);
    let h = scaled_height(width, height, max_width);
    lemma_scaled_height(width, height, max_width);
    crate::letterbox::lemma_scaled_is(oy, height, h, row);
    crate::letterbox::lemma_scaled_is(ox, width, w, col);
    let px = oy * w + ox;
    lemma_fundamental_div_mod_converse(px, w, oy, ox);
    assert(0 <= px < w * h) by (nonlinear_arith)
        requires
            px == oy * w + ox,
            0 <= ox < w,
            0 <= oy < h,
    ;
    let at = 3 * px;
    assert(at / 3 == px && (at + 1) / 3 == px && (at + 2) / 3 == px);
    assert(at % 3 == 0 && (at + 1) % 3 == 1 && (at + 2) % 3 == 2);
    assert(height * stride == stride * height) by (nonlinear_arith);
    assert(2 * (col / 2) == col - col % 2);
}

/// A frame that is not wider than the limit keeps its size, and every pixel its
/// place.
pub proof fn law_a_narrow_frame_is_not_scaled(
    x: int,
    y: int,
    width: int,
    height: int,
    stride: int,
    nv12: Seq<u8>,
    max_width: int,
)
    requires
        scalable(width, height, stride, nv12.len() as int, max_width),
        width <= max_width,
        0 <= x < width,
        0 <= y < height,
    ensures
        scaled_width(width, max_width) == width,
        scaled_height(width, height, max_width) == height,
        ({
            let out = scaled_rgb(width, height, stride, nv12, max_width);
            let at = 3 * (y * width + x);
            let pair = height * stride + (y / 2) * stride + 2 * (x / 2);
            pair + 1 < nv12.len() ==> (out[at], out[at + 1], out[at + 2]) == rgb_of(
                nv12[y * stride + x] as int,
                nv12[pair] as int,
                nv12[pair + 1] as int,
            )
        }),
{
    lemma_fundamental_div_mod_converse(height * width + width / 2, width, height, width / 2);
    assert(y * height < (y + 1) * height && x * width < (x + 1) * width) by (nonlinear_arith)
        requires
            width > 0,
            height > 0,
    ;
    law_the_scaled_frame_shows_the_source(x, y, y, x, width, height, stride, nv12, max_width);
}

/// Every luma byte of the frame is `y`, and every chroma pair holds `u` before `v`.
pub open spec fn one_colour(
    width: int,
    height: int,
    stride: int,
    nv12: Seq<u8>,
    y: u8,
    u: u8,
    v: u8,
) -> bool {
    &&& forall|row: int, col: int|
        0 <= row < height && 0 <= col < width ==> #[trigger] crate::letterbox::luma_byte(
            nv12,
            stride,
            row,
            col,
        ) == y
    &&& forall|row: int, pair: int|
        0 <= row < height / 2 && 0 <= pair < width / 2 ==> #[trigger] chroma_pair(
            nv12,
            stride,
            height,
            row,
            pair,
        ) == (u, v)
}

/// The two bytes of a chroma pair, in memory order.
pub open spec fn chroma_pair(nv12: Seq<u8>, stride: int, height: int, row: int, pair: int) -> (
    u8,
    u8,
) {
    let at = height * stride + row * stride + 2 * pair;
    (nv12[at], nv12[at + 1])
}

/// A frame of one colour is scaled to a frame of that colour: of luma `y`, and of the
/// chroma whose first byte is U and whose second is V.
pub proof fn law_one_colour_stays_one_colour(
    px: int,
    width: int,
    height: int,
    stride: int,
    nv12: Seq<u8>,
    max_width: int,
    y: u8,
    u: u8,
    v: u8,
)
    requires
        scalable(width, height, stride, nv12.len() as int, max_width),
        width % 2 == 0,
        height % 2 == 0,
        one_colour(width, height, stride, nv12, y, u, v),
        0 <= px < scaled_width(width, max_width) * scaled_height(width, height, max_width),
    ensures
        ({
            let out = scaled_rgb(width, height, stride, nv12, max_width);
            (out[3 * px], out[3 * px + 1], out[3 * px + 2]) == rgb_of(
                y as int,
                u as int,
                v as int,
            )
        }),
{
    let w = scaled_width(width, max_width);
    let h = scaled_height(width, height, max_width);
    lemma_scaled_height(width, height, max_width);
    let (ox, oy) = (px % w, px / w);
    lemma_fundamental_div_mod(px, w);
    assert(0 <= oy < h) by (nonlinear_arith)
        requires
            px == w * oy + ox,
            0 <= ox < w,
            0 <= px < w * h,
    ;
    assert(w * oy == oy * w) by (nonlinear_arith);
    let (row, col) = (oy * height / h, ox * width / w);
    crate::letterbox::lemma_sampled(oy, height, h);
    crate::letterbox::lemma_sampled(ox, width, w);
    law_the_scaled_frame_shows_the_source(ox, oy, row, col, width, height, stride, nv12, max_width);
    assert(crate::letterbox::luma_byte(nv12, stride, row, col) == y);
    assert(chroma_pair(nv12, stride, height, row / 2, col / 2) == (u, v));
    assert((row / 2) * stride + stride <= stride * (height / 2)) by (nonlinear_arith)
        requires
            0 <= row / 2 < height / 2,
            stride >= 0,
    ;
    assert(height * stride == stride * height) by (nonlinear_arith);
}

/// The JPEG file that the encoder makes of packed RGB pixels.
pub uninterp spec fn jpeg_bytes(rgb: Seq<u8>, width: u16, height: u16, quality: u8) -> Seq<u8>;

/// `bytes` is framed as a JPEG file: start and end of image.
pub open spec fn is_jpeg(bytes: Seq<u8>) -> bool {
    &&& bytes.len() >= 4
    &&& bytes[0] == 0xff && bytes[1] == 0xd8
    &&& bytes[bytes.len() - 2] == 0xff && bytes[bytes.len() - 1] == 0xd9
}

/// Why the encoder refuses `len` bytes for a picture of this size: too few bytes, or
/// no pixels.
pub open spec fn refusal_of(width: u16, height: u16, len: int) -> Seq<char> {
    let required = width * height * 3;
    if len < required {
        "Image data too small for dimensions and color_type: "@ + crate::text::decimal(len)
            + " need at least "@ + crate::text::decimal(required)
    } else {
        "Image dimensions must be non zero: "@ + crate::text::decimal(width as int) + "x"@
            + crate::text::decimal(height as int)
    }
}

/// Calls `jpeg_encoder::Encoder::new` on an empty buffer and `encode` with
/// `ColorType::Rgb`, and gives a failure as the text of its `Display`; the crate is
/// built without its `simd` feature. Claimed of them: too few bytes for the size are
/// refused first, then a size without pixels, each with its text; anything else is
/// encoded, since writing to a `Vec` does not fail; the bytes depend on the arguments
/// alone, begin with the start-of-image marker and end with the end-of-image marker.
/// What lies between is left unsaid.
#[verifier::external_body]
fn encode_rgb(rgb: &[u8], width: u16, height: u16, quality: u8) -> (r: Result<Vec<u8>, String>)
    requires
        width * height * 3 <= usize::MAX,
    ensures
        match r {
            Ok(bytes) => {
                &&& encodable(width, height, rgb@.len() as int)
                &&& bytes@ == jpeg_bytes(rgb@, width, height, quality)
                &&& is_jpeg(bytes@)
            },
            Err(text) => {
                &&& !encodable(width, height, rgb@.len() as int)
                &&& text@ == refusal_of(width, height, rgb@.len() as int)
            },
        },
{
    let mut buf = Vec::new();
    let encoder = jpeg_encoder::Encoder::new(&mut buf, quality);
    match encoder.encode(rgb, width, height, jpeg_encoder::ColorType::Rgb) {
        Ok(()) => Ok(buf),
        Err(e) => Err(e.to_string()),
    }
}

/// The encoder takes the low 16 bits of each side.
pub open spec fn low16(x: int) -> u16 {
    (x % 0x1_0000) as u16
}

/// A frame of this size holds enough bytes, and pixels, for the encoder.
pub open spec fn encodable(width: u16, height: u16, len: int) -> bool {
    len >= width * height * 3 && width > 0 && height > 0
}

/// Encode a packed RGB frame as JPEG; a frame that the encoder refuses gives its text.
pub fn encode_jpeg_rgb(frame: &RawPreviewFrame, quality: u8) -> (r: Result<Vec<u8>, String>)
    requires
        low16(frame.width as int) * low16(frame.height as int) * 3 <= usize::MAX,
    ensures
        ({
            let w = low16(frame.width as int);
            let h = low16(frame.height as int);
            let len = frame.rgb@.len() as int;
            match r {
                Ok(bytes) => {
                    &&& encodable(w, h, len)
                    &&& bytes@ == jpeg_bytes(frame.rgb@, w, h, quality)
                    &&& is_jpeg(bytes@)
                },
                Err(text) => !encodable(w, h, len) && text@ == refusal_of(w, h, len),
            }
        }),
{
    let w: u16 = (frame.width % 0x1_0000) as u16;
    let h: u16 = (frame.height % 0x1_0000) as u16;
    encode_rgb(frame.rgb.as_slice(), w, h, quality)
}

/// The tap of one output.
pub struct PreviewShared {
    pub cfg: PreviewConfig,
    /// Name for logs.
    pub label: String,
    /// When a viewer last asked; 0 when none has.
    pub last_request_ms: u64,
    /// When a frame was last accepted; 0 when none was.
    pub last_offer_ms: u64,
    /// The tap was last reported as subscribed.
    pub was_subscribed: bool,
    /// The latest frame that waits for the encoder.
    pub pending: Option<RawPreviewFrame>,
    /// The encoder is at work.
    pub busy: bool,
    pub latest: Option<Vec<u8>>,
}

/// A frame's bytes match its size.
pub open spec fn frame_wf(f: RawPreviewFrame) -> bool {
    f.rgb@.len() == f.width * f.height * 3
}

/// The tap's clock: milliseconds since it was made, from 1 on.
pub fn clock_ms(elapsed_ms: u64) -> (r: u64)
    requires
        elapsed_ms < u64::MAX,
    ensures
        r == elapsed_ms + 1,
{
    elapsed_ms + 1
}

/// What an offer did.
#[derive(Debug, Clone, Copy, PartialEq, Eq, Structural)]
pub struct OfferReport {
    /// A frame was queued: wake the encoder.
    pub queued: bool,
    /// The viewer has just gone: worth a log line.
    pub unsubscribed: bool,
    /// The frame was dropped because the encoder is at work.
    pub dropped_busy: bool,
}

impl PreviewShared {
    /// What waits matches its size.
    pub open spec fn wf(&self) -> bool {
        self.pending matches Some(f) ==> frame_wf(f)
    }

    /// A viewer asked within the last `viewer_ttl_ms`.
    pub open spec fn subscribed(&self, now: int) -> bool {
        self.last_request_ms != 0 && (now <= self.last_request_ms && self.cfg.viewer_ttl_ms > 0
            || now > self.last_request_ms && now - self.last_request_ms < self.cfg.viewer_ttl_ms)
    }

    /// An accepted frame is too recent for another.
    pub open spec fn rate_limited(&self, now: int) -> bool {
        self.last_offer_ms != 0 && (now <= self.last_offer_ms && self.cfg.min_ingest_interval_ms > 0
            || now > self.last_offer_ms && now - self.last_offer_ms
            < self.cfg.min_ingest_interval_ms)
    }

    /// An offer at `now` gets as far as the scaling.
    pub open spec fn accepts(&self, now: int) -> bool {
        self.subscribed(now) && !self.rate_limited(now) && !self.busy
    }

    /// An offer at `now` is queued: it is accepted, and the frame can be scaled.
    pub open spec fn queues(
        &self,
        now: int,
        width: int,
        height: int,
        stride: int,
        nv12: Seq<u8>,
    ) -> bool {
        self.accepts(now) && scalable(
            width,
            height,
            stride,
            nv12.len() as int,
            self.cfg.max_width as int,
        )
    }

    /// `after` is this tap after an offer at `now`: the scaled frame waits in place
    /// of an older one, or nothing changed; a viewer that has gone is noted.
    pub open spec fn takes_offer(
        &self,
        now: int,
        width: int,
        height: int,
        stride: int,
        nv12: Seq<u8>,
        after: PreviewShared,
    ) -> bool {
        let max_width = self.cfg.max_width as int;
        &&& after.cfg == self.cfg
        &&& after.label == self.label
        &&& after.last_request_ms == self.last_request_ms
        &&& after.busy == self.busy
        &&& after.latest == self.latest
        &&& after.was_subscribed == (self.was_subscribed && self.subscribed(now))
        &&& if self.queues(now, width, height, stride, nv12) {
            &&& after.last_offer_ms == now
            &&& after.pending matches Some(f)
            &&& f.width == scaled_width(width, max_width)
            &&& f.height == scaled_height(width, height, max_width)
            &&& f.rgb@ == scaled_rgb(width, height, stride, nv12, max_width)
        } else {
            &&& after.last_offer_ms == self.last_offer_ms
            &&& after.pending == self.pending
        }
    }

    /// As it was created with `cfg`: nobody has asked, nothing was offered, nothing
    /// waits or is published, and the encoder is free.
    pub open spec fn is_fresh(&self, cfg: PreviewConfig) -> bool {
        &&& self.wf()
        &&& self.cfg == cfg
        &&& self.last_request_ms == 0
        &&& self.last_offer_ms == 0
        &&& !self.was_subscribed
        &&& self.pending is None
        &&& !self.busy
        &&& self.latest is None
    }

    /// `after` is this tap after the encoder had a turn: the picture of the waiting
    /// frame is published, unless it could not be encoded; without one nothing
    /// changed.
    pub open spec fn encodes_to(&self, after: PreviewShared) -> bool {
        match self.pending {
            None => after == *self,
            Some(f) => {
                let w = low16(f.width as int);
                let h = low16(f.height as int);
                &&& after.pending is None
                &&& !after.busy
                &&& after.cfg == self.cfg
                &&& after.label == self.label
                &&& after.last_request_ms == self.last_request_ms
                &&& after.last_offer_ms == self.last_offer_ms
                &&& after.was_subscribed == self.was_subscribed
                &&& if encodable(w, h, f.rgb@.len() as int) {
                    &&& after.latest matches Some(bytes)
                    &&& bytes@ == jpeg_bytes(f.rgb@, w, h, self.cfg.jpeg_quality)
                    &&& is_jpeg(bytes@)
                } else {
                    after.latest == self.latest
                }
            },
        }
    }

    pub fn new(cfg: PreviewConfig, label: String) -> (r: Self)
        ensures
            r.is_fresh(cfg),
            r.label == label,
    {
        PreviewShared {
            cfg,
            label,
            last_request_ms: 0,
            last_offer_ms: 0,
            was_subscribed: false,
            pending: None,
            busy: false,
            latest: None,
        }
    }

    /// The tap after a viewer asked at `now`.
    pub open spec fn after_request(self, now: u64) -> PreviewShared {
        PreviewShared { last_request_ms: now, was_subscribed: true, ..self }
    }

    /// A viewer asked. Returns whether the tap has just become subscribed.
    pub fn note_viewer_request(&mut self, now_ms: u64) -> (r: bool)
        requires
            old(self).wf(),
        ensures
            final(self).wf(),
            r == !old(self).was_subscribed,
            *final(self) == old(self).after_request(now_ms),
            *final(self) == (PreviewShared {
                last_request_ms: now_ms,
                was_subscribed: true,
                ..*old(self)
            }),
    {
        self.last_request_ms = now_ms;
        let first: bool = !self.was_subscribed;
        self.was_subscribed = true;
        first
    }

    /// Whether a viewer asked within the time to live.
    pub fn is_subscribed(&self, now_ms: u64) -> (r: bool)
        ensures
            r == self.subscribed(now_ms as int),
    {
        if self.last_request_ms == 0 {
            return false;
        }
        now_ms.saturating_sub(self.last_request_ms) < self.cfg.viewer_ttl_ms
    }

    /// Offer one decoded NV12 frame at `now_ms`.
    pub fn offer(&mut self, now_ms: u64, width: u32, height: u32, stride: u32, nv12: &[u8]) -> (r:
        OfferReport)
        requires
            old(self).wf(),
        ensures
            final(self).wf(),
            old(self).takes_offer(
                now_ms as int,
                width as int,
                height as int,
                stride as int,
                nv12@,
                *final(self),
            ),
            r.unsubscribed == (old(self).was_subscribed && !old(self).subscribed(now_ms as int)),
            r.dropped_busy == (old(self).subscribed(now_ms as int) && !old(self).rate_limited(
                now_ms as int,
            ) && old(self).busy),
            r.queued == old(self).queues(
                now_ms as int,
                width as int,
                height as int,
                stride as int,
                nv12@,
            ),
    {
        let subscribed: bool = self.is_subscribed(now_ms);
        let unsubscribed: bool = self.was_subscribed && !subscribed;
        if unsubscribed {
            self.was_subscribed = false;
        }
        if !subscribed {
            return OfferReport { queued: false, unsubscribed, dropped_busy: false };
        }
        if self.last_offer_ms != 0 && now_ms.saturating_sub(self.last_offer_ms)
            < self.cfg.min_ingest_interval_ms {
            return OfferReport { queued: false, unsubscribed, dropped_busy: false };
        }
        if self.busy {
            return OfferReport { queued: false, unsubscribed, dropped_busy: true };
        }
        match downscale_nv12_to_rgb(width, height, stride, nv12, self.cfg.max_width) {
            Some(frame) => {
                proof {
                    lemma_scaled_height(width as int, height as int, self.cfg.max_width as int);
                }
                self.pending = Some(frame);
                self.last_offer_ms = now_ms;
                OfferReport { queued: true, unsubscribed, dropped_busy: false }
            },
            None => OfferReport { queued: false, unsubscribed, dropped_busy: false },
        }
    }

    /// The encoder takes the waiting frame and is then at work.
    pub fn take_pending(&mut self) -> (r: Option<RawPreviewFrame>)
        requires
            old(self).wf(),
        ensures
            final(self).wf(),
            r == old(self).pending,
            *final(self) == if old(self).pending is Some {
                PreviewShared { pending: None, busy: true, ..*old(self) }
            } else {
                *old(self)
            },
    {
        let frame: Option<RawPreviewFrame> = self.pending.take();
        if frame.is_some() {
            self.busy = true;
        }
        frame
    }

    /// The encoder is done. A frame that could not be encoded leaves the last
    /// picture in place.
    pub fn finish_encode(&mut self, encoded: Result<Vec<u8>, String>)
        requires
            old(self).wf(),
        ensures
            final(self).wf(),
            *final(self) == (PreviewShared {
                busy: false,
                latest: match encoded {
                    Ok(bytes) => Some(bytes),
                    Err(_) => old(self).latest,
                },
                ..*old(self)
            }),
    {
        self.busy = false;
        match encoded {
            Ok(bytes) => {
                self.latest = Some(bytes);
            },
            Err(_) => {},
        }
    }

    /// Encode the waiting frame, if any, and publish it. Returns whether a frame was
    /// encoded: a waiting frame that the encoder refuses is gone all the same.
    pub fn encode_pending_once(&mut self) -> (r: bool)
        requires
            old(self).wf(),
        ensures
            final(self).wf(),
            r <==> (old(self).pending matches Some(f) && encodable(
                low16(f.width as int),
                low16(f.height as int),
                f.rgb@.len() as int,
            )),
            old(self).encodes_to(*final(self)),
    {
        match self.take_pending() {
            Some(frame) => {
                assert(frame.rgb.len() <= usize::MAX);
                proof {
                    let (w, h) = (
                        low16(frame.width as int) as int,
                        low16(frame.height as int) as int,
                    );
                    assert(w * h * 3 <= frame.width * frame.height * 3) by (nonlinear_arith)
                        requires
                            0 <= w <= frame.width,
                            0 <= h <= frame.height,
                    ;
                }
                let encoded = encode_jpeg_rgb(&frame, self.cfg.jpeg_quality);
                let done: bool = encoded.is_ok();
                self.finish_encode(encoded);
                done
            },
            None => false,
        }
    }

    /// The published JPEG, if any.
    pub fn latest_jpeg(&self) -> (r: Option<&Vec<u8>>)
        ensures
            match r {
                Some(b) => self.latest == Some(*b),
                None => self.latest is None,
            },
    {
        match &self.latest {
            Some(b) => Some(b),
            None => None,
        }
    }
}

/// At most one frame per interval is accepted: after an offer at `first` was queued,
/// one that is queued later, with nothing accepted in between, comes at least the
/// interval after it. Times count from 1.
pub proof fn law_queued_offers_are_an_interval_apart(
    before: PreviewShared,
    first: int,
    width: int,
    height: int,
    stride: int,
    nv12: Seq<u8>,
    offered: PreviewShared,
    later: PreviewShared,
    second: int,
    later_nv12: Seq<u8>,
)
    requires
        1 <= first <= u64::MAX,
        before.queues(first, width, height, stride, nv12),
        before.takes_offer(first, width, height, stride, nv12, offered),
        later.last_offer_ms == offered.last_offer_ms,
        later.cfg == offered.cfg,
        later.queues(second, width, height, stride, later_nv12),
        before.cfg.min_ingest_interval_ms > 0,
    ensures
        second - first >= before.cfg.min_ingest_interval_ms,
{
}

/// Two buffers hold the same frame: they agree on every byte of its rows, and may
/// differ in the padding of a row and past the end.
pub open spec fn same_frame(
    width: int,
    height: int,
    stride: int,
    a: Seq<u8>,
    b: Seq<u8>,
) -> bool {
    forall|i: int|
        0 <= i < stride * height * 3 / 2 && i % stride < width ==> #[trigger] a[i] == b[i]
}

/// A byte of row `row` and column `col` of a buffer of `rows` rows.
proof fn lemma_row_byte(row: int, col: int, rows: int, stride: int)
    requires
        0 <= row < rows,
        0 <= col < stride,
    ensures
        0 <= row * stride + col < rows * stride,
        (row * stride + col) % stride == col,
{
    assert(0 <= row * stride && row * stride + stride <= rows * stride) by (nonlinear_arith)
        requires
            0 <= row < rows,
            0 < stride,
    ;
    lemma_fundamental_div_mod_converse(row * stride + col, stride, row, col);
}

proof fn lemma_same_colour(
    sx: int,
    sy: int,
    width: int,
    height: int,
    stride: int,
    a: Seq<u8>,
    b: Seq<u8>,
)
    requires
        0 <= sx < width,
        0 <= sy < height,
        width % 2 == 0,
        height % 2 == 0,
        stride >= width,
        a.len() >= stride * height * 3 / 2,
        b.len() >= stride * height * 3 / 2,
        same_frame(width, height, stride, a, b),
    ensures
        source_rgb(sx, sy, height, stride, a) == source_rgb(sx, sy, height, stride, b),
{
    let rows = height + height / 2;
    let (row, col) = (height + sy / 2, sx - sx % 2);
    assert(rows * stride == stride * height * 3 / 2) by {
        let half = height / 2;
        assert(height == 2 * half);
        assert(rows * stride == 3 * (half * stride)) by (nonlinear_arith)
            requires
                rows == 3 * half,
        ;
        assert(stride * height == 2 * (half * stride)) by (nonlinear_arith)
            requires
                height == 2 * half,
        ;
    }
    lemma_row_byte(sy, sx, rows, stride);
    lemma_row_byte(row, col, rows, stride);
    lemma_row_byte(row, col + 1, rows, stride);
    assert(row * stride == stride * height + (sy / 2) * stride) by (nonlinear_arith)
        requires
            row == height + sy / 2,
    ;
    let (y, u) = (sy * stride + sx, row * stride + col);
    assert(a[y] == b[y] && a[u] == b[u] && a[u + 1] == b[u + 1]);
}

/// Neither the padding of a row nor bytes past the frame play a part in a scaled
/// frame: two buffers that hold the same frame scale alike.
pub proof fn law_only_the_frame_is_scaled(
    width: int,
    height: int,
    stride: int,
    a: Seq<u8>,
    b: Seq<u8>,
    max_width: int,
)
    requires
        width > 0,
        height > 0,
        width % 2 == 0,
        height % 2 == 0,
        max_width > 0,
        stride >= width,
        a.len() >= stride * height * 3 / 2,
        b.len() >= stride * height * 3 / 2,
        same_frame(width, height, stride, a, b),
    ensures
        scalable(width, height, stride, a.len() as int, max_width),
        scalable(width, height, stride, b.len() as int, max_width),
        scaled_rgb(width, height, stride, a, max_width) == scaled_rgb(
            width,
            height,
            stride,
            b,
            max_width,
        ),
{
    lemma_scaled_height(width, height, max_width);
    let (out_w, out_h) = (
        scaled_width(width, max_width),
        scaled_height(width, height, max_width),
    );
    let half = height / 2;
    assert(stride * height + stride * half == stride * height * 3 / 2) by {
        assert(stride * height == 2 * (stride * half)) by (nonlinear_arith)
            requires
                height == 2 * half,
        ;
    }
    let (x, y) = (
        scaled_rgb(width, height, stride, a, max_width),
        scaled_rgb(width, height, stride, b, max_width),
    );
    assert forall|j: int| 0 <= j < x.len() implies x[j] == y[j] by {
        let px = j / 3;
        assert(0 <= px < out_h * out_w) by (nonlinear_arith)
            requires
                0 <= j < out_w * out_h * 3,
                px == j / 3,
        ;
        lemma_fundamental_div_mod(px, out_w);
        let (oy, ox) = (px / out_w, px % out_w);
        assert(0 <= oy < out_h) by (nonlinear_arith)
            requires
                0 <= px < out_h * out_w,
                px == out_w * oy + ox,
                0 <= ox < out_w,
                out_w > 0,
        ;
        crate::letterbox::lemma_scaled_below(ox, width, out_w);
        crate::letterbox::lemma_scaled_below(oy, height, out_h);
        lemma_same_colour(
            ox * width / out_w,
            oy * height / out_h,
            width,
            height,
            stride,
            a,
            b,
        );
    }
    assert(x =~= y);
}

/// Scaling never enlarges, and leaves at least one pixel on each side.
pub proof fn law_scaling_never_enlarges(width: int, height: int, max_width: int)
    requires
        width > 0,
        height > 0,
        max_width > 0,
    ensures
        1 <= scaled_width(width, max_width) <= width,
        scaled_width(width, max_width) <= max_width,
        1 <= scaled_height(width, height, max_width) <= height,
{
    lemma_scaled_height(width, height, max_width);
}

/// What a viewer reads after an offer was queued and the encoder had its turn is the
/// picture of the offered frame, scaled: the JPEG of its pixels at the quality of the
/// tap. Sides are counted by their low 16 bits, and neither may be a multiple of
/// 65536.
pub proof fn law_a_viewer_reads_the_offered_frame(
    before: PreviewShared,
    now: u64,
    width: u32,
    height: u32,
    stride: u32,
    nv12: Seq<u8>,
    offered: PreviewShared,
    encoded: PreviewShared,
)
    requires
        before.queues(now as int, width as int, height as int, stride as int, nv12),
        before.takes_offer(
            now as int,
            width as int,
            height as int,
            stride as int,
            nv12,
            offered,
        ),
        offered.wf(),
        offered.encodes_to(encoded),
        low16(scaled_width(width as int, before.cfg.max_width as int)) > 0,
        low16(scaled_height(width as int, height as int, before.cfg.max_width as int)) > 0,
    ensures
        encoded.latest is Some,
        encoded.latest->0@ == jpeg_bytes(
            scaled_rgb(
                width as int,
                height as int,
                stride as int,
                nv12,
                before.cfg.max_width as int,
            ),
            low16(scaled_width(width as int, before.cfg.max_width as int)),
            low16(scaled_height(width as int, height as int, before.cfg.max_width as int)),
            before.cfg.jpeg_quality,
        ),
        is_jpeg(encoded.latest->0@),
        !encoded.busy,
{
    let f = offered.pending->0;
    let w = low16(f.width as int) as int;
    let h = low16(f.height as int) as int;
    assert(w * h * 3 <= f.width * f.height * 3) by (nonlinear_arith)
        requires
            0 <= w <= f.width,
            0 <= h <= f.height,
    ;
}

/// A handle's side of one tap.
pub struct PreviewTap {
    pub shared: PreviewShared,
}

impl PreviewTap {
    pub fn new(cfg: PreviewConfig, label: String) -> (r: Self)
        ensures
            r.shared.is_fresh(cfg),
            r.shared.label == label,
    {
        PreviewTap { shared: PreviewShared::new(cfg, label) }
    }

    /// See [`PreviewShared::offer`]. Returns whether a frame was queued.
    pub fn try_offer(&mut self, now_ms: u64, width: u32, height: u32, stride: u32, nv12: &[u8])
        -> (r: bool)
        requires
            old(self).shared.wf(),
        ensures
            final(self).shared.wf(),
            old(self).shared.takes_offer(
                now_ms as int,
                width as int,
                height as int,
                stride as int,
                nv12@,
                final(self).shared,
            ),
            r == old(self).shared.queues(
                now_ms as int,
                width as int,
                height as int,
                stride as int,
                nv12@,
            ),
    {
        self.shared.offer(now_ms, width, height, stride, nv12).queued
    }

    /// See [`PreviewShared::note_viewer_request`].
    pub fn note_viewer_request(&mut self, now_ms: u64) -> (r: bool)
        requires
            old(self).shared.wf(),
        ensures
            final(self).shared.wf(),
            r == !old(self).shared.was_subscribed,
            final(self).shared == old(self).shared.after_request(now_ms),
            final(self).shared == (PreviewShared {
                last_request_ms: now_ms,
                was_subscribed: true,
                ..old(self).shared
            }),
    {
        self.shared.note_viewer_request(now_ms)
    }

    /// The published JPEG, if any.
    pub fn latest_jpeg(&self) -> (r: Option<&Vec<u8>>)
        ensures
            match r {
                Some(b) => self.shared.latest == Some(*b),
                None => self.shared.latest is None,
            },
    {
        self.shared.latest_jpeg()
    }
}

/// The name of a playlist's tap.
pub open spec fn tap_label(playlist_id: int) -> Seq<char> {
    "playlist-"@ + crate::text::decimal(playlist_id)
}

/// The taps of all playlists. Each playlist has at most one, at a fixed slot.
pub struct PreviewRegistry {
    cfg: PreviewConfig,
    slots: HashMap<i64, usize>,
    taps: Vec<PreviewTap>,
}

impl PreviewRegistry {
    /// Settings for new taps.
    pub closed spec fn config(&self) -> PreviewConfig {
        self.cfg
    }

    /// The slot of each registered playlist.
    pub closed spec fn slots(&self) -> Map<i64, usize> {
        self.slots@
    }

    /// The taps, by slot.
    pub closed spec fn taps(&self) -> Seq<PreviewTap> {
        self.taps@
    }

    /// Every registered playlist has a slot of its own that holds a tap.
    pub open spec fn wf(&self) -> bool {
        &&& forall|id: i64| #[trigger]
            self.slots().contains_key(id) ==> self.slots()[id] < self.taps().len()
        &&& forall|a: i64, b: i64|
            #![trigger self.slots()[a], self.slots()[b]]
            self.slots().contains_key(a) && self.slots().contains_key(b) && self.slots()[a]
                == self.slots()[b] ==> a == b
    }

    pub fn new() -> (r: Self)
        ensures
            r.wf(),
            r.config() == PreviewConfig::standard(),
            r.slots() == Map::<i64, usize>::empty(),
            r.taps() == Seq::<PreviewTap>::empty(),
    {
        Self::with_config(PreviewConfig::default())
    }

    pub fn with_config(cfg: PreviewConfig) -> (r: Self)
        ensures
            r.wf(),
            r.config() == cfg,
            r.slots() == Map::<i64, usize>::empty(),
            r.taps() == Seq::<PreviewTap>::empty(),
    {
        PreviewRegistry { cfg, slots: HashMap::new(), taps: Vec::new() }
    }

    /// `after` is this registry after `playlist_id` was registered, at `slot`: the one
    /// it has, or a new one with a fresh tap.
    pub open spec fn registers(&self, playlist_id: i64, after: &Self, slot: usize) -> bool {
        &&& after.config() == self.config()
        &&& after.slots().contains_key(playlist_id)
        &&& after.slots()[playlist_id] == slot
        &&& if self.slots().contains_key(playlist_id) {
            &&& after.slots() == self.slots()
            &&& after.taps() == self.taps()
        } else {
            &&& slot == self.taps().len()
            &&& after.slots() == self.slots().insert(playlist_id, slot)
            &&& after.taps().len() == self.taps().len() + 1
            &&& after.taps().take(slot as int) == self.taps()
            &&& after.taps()[slot as int].shared.is_fresh(self.config())
            &&& after.taps()[slot as int].shared.label@ == tap_label(playlist_id as int)
        }
    }

    /// Register the tap of `playlist_id`, or find the one it has: registering
    /// again never makes a second tap.
    pub fn register(&mut self, playlist_id: i64) -> (r: usize)
        requires
            old(self).wf(),
            old(self).slots().contains_key(playlist_id) || old(self).taps().len() < usize::MAX,
        ensures
            final(self).wf(),
            old(self).registers(playlist_id, final(self), r),
    {
        match self.get(playlist_id) {
            Some(slot) => slot,
            None => {
                let slot: usize = self.taps.len();
                let mut label: String = String::from_str("playlist-");
                let id: String = crate::text::int_text(playlist_id);
                label.append(id.as_str());
                self.taps.push(PreviewTap::new(self.cfg, label));
                self.slots.insert(playlist_id, slot);
                assert(self.taps@.take(slot as int) =~= old(self).taps@);
                slot
            },
        }
    }

    /// The slot of `playlist_id`, if it is registered.
    pub fn get(&self, playlist_id: i64) -> (r: Option<usize>)
        ensures
            r == self.slots().get(playlist_id),
    {
        match self.slots.get(&playlist_id) {
            Some(slot) => Some(*slot),
            None => None,
        }
    }

    /// The tap at `slot`.
    pub fn tap(&self, slot: usize) -> (r: &PreviewTap)
        requires
            slot < self.taps().len(),
        ensures
            *r == self.taps()[slot as int],
    {
        &self.taps[slot]
    }

    /// The tap at `slot`, to offer to or to encode.
    pub fn tap_mut(&mut self, slot: usize) -> (r: &mut PreviewTap)
        requires
            slot < old(self).taps().len(),
        ensures
            *r == old(self).taps()[slot as int],
            final(self).taps() == old(self).taps().update(slot as int, *final(r)),
            final(self).slots() == old(self).slots(),
            final(self).config() == old(self).config(),
    {
        &mut self.taps[slot]
    }
}

/// Registering a playlist again finds the tap it has and changes nothing; every other
/// playlist keeps its slot, and what is at the slots stays.
pub proof fn law_registering_again_finds_the_tap(
    before: PreviewRegistry,
    playlist_id: i64,
    between: PreviewRegistry,
    first: usize,
    after: PreviewRegistry,
    again: usize,
)
    requires
        before.wf(),
        before.registers(playlist_id, &between, first),
        between.registers(playlist_id, &after, again),
    ensures
        again == first,
        after.slots() == between.slots(),
        after.taps() == between.taps(),
        after.slots().get(playlist_id) == Some(first),
        forall|other: i64|
            other != playlist_id ==> #[trigger] after.slots().get(other) == before.slots().get(
                other,
            ),
        forall|slot: int|
            0 <= slot < before.taps().len() ==> #[trigger] after.taps()[slot]
                == before.taps()[slot],
{
    assert forall|slot: int| 0 <= slot < before.taps().len() implies #[trigger] after.taps()[slot]
        == before.taps()[slot] by {
        if !before.slots().contains_key(playlist_id) {
            assert(between.taps().take(first as int)[slot] == between.taps()[slot]);
        }
    }
}

/// A viewer of a newly registered tap who asks at `now` makes its next frame queue, as
/// long as the frame can be scaled: a new tap is free and has accepted nothing.
pub proof fn law_a_new_tap_takes_its_first_frame(
    registry: PreviewRegistry,
    playlist_id: i64,
    after: PreviewRegistry,
    slot: usize,
    now: u64,
    width: int,
    height: int,
    stride: int,
    nv12: Seq<u8>,
)
    requires
        !registry.slots().contains_key(playlist_id),
        registry.registers(playlist_id, &after, slot),
        now > 0,
        registry.config().viewer_ttl_ms > 0,
        scalable(width, height, stride, nv12.len() as int, registry.config().max_width as int),
    ensures
        (PreviewShared {
            last_request_ms: now,
            was_subscribed: true,
            ..after.taps()[slot as int].shared
        }).queues(now as int, width, height, stride, nv12),
{
}

impl Default for PreviewRegistry {
    fn default() -> (r: Self)
        ensures
            r.wf(),
            r.config() == PreviewConfig::standard(),
            r.slots() == Map::<i64, usize>::empty(),
            r.taps() == Seq::<PreviewTap>::empty(),
    {
        Self::new()
    }
}

/// A tap is subscribed exactly for the time to live after the last request, and never
/// without one.
pub proof fn law_a_request_keeps_the_tap_subscribed(tap: PreviewShared, request: u64, now: u64)
    requires
        1 <= request <= now,
    ensures
        (PreviewShared { last_request_ms: request, ..tap }).subscribed(now as int) <==> now
            - request < tap.cfg.viewer_ttl_ms,
        !(PreviewShared { last_request_ms: 0, ..tap }).subscribed(now as int),
{
}

/// Another frame is too soon exactly for the interval after the last accepted one; the
/// first frame never is.
pub proof fn law_an_accepted_frame_holds_off_the_next(tap: PreviewShared, accepted: u64, now: u64)
    requires
        1 <= accepted <= now,
    ensures
        (PreviewShared { last_offer_ms: accepted, ..tap }).rate_limited(now as int) <==> now
            - accepted < tap.cfg.min_ingest_interval_ms,
        !(PreviewShared { last_offer_ms: 0, ..tap }).rate_limited(now as int),
{
}

/// A frame that nobody watches, that comes too soon, or that comes while the encoder is
/// at work leaves what waits, what is published and the time of the last accepted frame
/// as they were.
pub proof fn law_a_refused_frame_leaves_no_trace(
    tap: PreviewShared,
    now: int,
    width: int,
    height: int,
    stride: int,
    nv12: Seq<u8>,
    after: PreviewShared,
)
    requires
        tap.takes_offer(now, width, height, stride, nv12, after),
        !tap.subscribed(now) || tap.rate_limited(now) || tap.busy,
    ensures
        after.pending == tap.pending,
        after.last_offer_ms == tap.last_offer_ms,
        after.latest == tap.latest,
        tap.subscribed(now) ==> after == tap,
{
}

/// The latest accepted frame is the one that waits, whatever waited before; what is
/// published stays until it is encoded.
pub proof fn law_the_latest_frame_waits(
    tap: PreviewShared,
    now: int,
    width: int,
    height: int,
    stride: int,
    nv12: Seq<u8>,
    after: PreviewShared,
)
    requires
        tap.takes_offer(now, width, height, stride, nv12, after),
        tap.subscribed(now),
        !tap.rate_limited(now),
        !tap.busy,
        scalable(width, height, stride, nv12.len() as int, tap.cfg.max_width as int),
    ensures
        after.pending matches Some(f) && f.rgb@ == scaled_rgb(
            width,
            height,
            stride,
            nv12,
            tap.cfg.max_width as int,
        ) && f.width == scaled_width(width, tap.cfg.max_width as int) && f.height == scaled_height(
            width,
            height,
            tap.cfg.max_width as int,
        ),
        after.last_offer_ms == now,
        after.latest == tap.latest,
        after.was_subscribed == tap.was_subscribed,
{
}

/// The encoder works on a frame once: after its turn nothing waits and it is free, and
/// a second turn changes nothing. A picture that cannot be made leaves the last one.
pub proof fn law_a_frame_is_encoded_once(
    tap: PreviewShared,
    once: PreviewShared,
    twice: PreviewShared,
)
    requires
        tap.pending is Some,
        tap.encodes_to(once),
        once.encodes_to(twice),
    ensures
        once.pending is None,
        !once.busy,
        twice == once,
        once.latest is Some || tap.latest is None,
{
}

/// The encoder is told the size as it is, up to 65535 on a side.
pub proof fn law_sizes_are_kept_up_to_16_bits(x: int)
    ensures
        0 <= x < 0x1_0000 ==> low16(x) == x,
        low16(x + 0x1_0000) == low16(x),
{
}

/// Every playlist's tap has a name of its own.
pub proof fn law_tap_names_are_distinct(a: i64, b: i64)
    requires
        tap_label(a as int) == tap_label(b as int),
    ensures
        a == b,
{
    let (x, y) = (crate::text::decimal(a as int), crate::text::decimal(b as int));
    let none = Seq::<char>::empty();
    assert("playlist-"@ + x + none =~= tap_label(a as int));
    assert("playlist-"@ + y + none =~= tap_label(b as int));
    crate::text::lemma_same_middle("playlist-"@, x, y, none);
    crate::text::law_written_integers_read_back(a);
    crate::text::law_written_integers_read_back(b);
}

/// A request subscribes the tap from then on, for its time to live, and changes nothing
/// that waits or is published.
pub proof fn law_a_request_subscribes(tap: PreviewShared, request: u64, now: u64)
    requires
        1 <= request <= now,
    ensures
        tap.after_request(request).subscribed(now as int) <==> now - request
            < tap.cfg.viewer_ttl_ms,
        tap.after_request(request).was_subscribed,
        tap.after_request(request).pending == tap.pending,
        tap.after_request(request).latest == tap.latest,
        tap.after_request(request).last_offer_ms == tap.last_offer_ms,
        tap.after_request(request).busy == tap.busy,
{
}

} // verus!
