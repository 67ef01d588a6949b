//! Nearest-neighbour letterboxing of NV12 frames into the fixed preview canvas.

use vstd::arithmetic::div_mod::{
    lemma_div_is_ordered, lemma_fundamental_div_mod, lemma_fundamental_div_mod_converse,
};
use vstd::prelude::*;

verus! {

/// Width of the preview canvas.
pub const OUT_W: u32 = 640;

/// Height of the preview canvas.
pub const OUT_H: u32 = 360;

/// Bytes of the NV12 canvas: 640 x 360 luma and half as much chroma.
pub const OUT_NV12_LEN: usize = 345_600;

/// Limited-range black luma, for the bars.
pub const BLACK_Y: u8 = 16;

/// Neutral chroma, for the bars.
pub const NEUTRAL_C: u8 = 128;

/// Bytes of the canvas's luma plane.
pub const OUT_Y_LEN: usize = 230_400;

/// Where the scaled image lies inside the canvas.
#[derive(Debug, Clone, Copy, PartialEq, Eq, Structural)]
pub struct Placement {
    pub w: u32,
    pub h: u32,
    pub off_x: u32,
    pub off_y: u32,
}

/// `x` rounded down to an even number.
pub open spec fn even_floor(x: int) -> int {
    x - x % 2
}

/// The scaled length of one axis: as much of `full` as keeps the aspect ratio,
/// rounded down to even, at least 2.
pub open spec fn fitted(full: int, aspect: int) -> int {
    let fit = if full <= aspect {
        full
    } else {
        aspect
    };
    if even_floor(fit) < 2 {
        2
    } else {
        even_floor(fit)
    }
}

/// The placement of a `sw` x `sh` source: the largest even-sized image of the
/// same aspect ratio, centred on even offsets. A source without pixels has an
/// image without pixels.
pub open spec fn placement_of(sw: int, sh: int) -> Placement {
    if sw == 0 || sh == 0 {
        Placement { w: 0, h: 0, off_x: OUT_W / 2, off_y: OUT_H / 2 }
    } else {
        let w = fitted(OUT_W as int, sw * OUT_H / sh);
        let h = fitted(OUT_H as int, sh * OUT_W / sw);
        Placement {
            w: w as u32,
            h: h as u32,
            off_x: even_floor((OUT_W - w) / 2) as u32,
            off_y: even_floor((OUT_H - h) / 2) as u32,
        }
    }
}

fn fit_axis(full: u32, aspect: u32) -> (r: u32)
    requires
        2 <= full <= 0xffff,
    ensures
        r == fitted(full as int, aspect as int),
        2 <= r <= full || r == 2,
        r % 2 == 0,
{
    let fit: u32 = if full <= aspect {
        full
    } else {
        aspect
    };
    let even: u32 = fit - fit % 2;
    if even < 2 {
        2
    } else {
        even
    }
}

/// The placement of a `sw` x `sh` source can be computed in 32 bits; a source without
/// pixels needs nothing.
pub open spec fn placeable(sw: u32, sh: u32) -> bool {
    sw == 0 || sh == 0 || (sw * OUT_H <= u32::MAX && sh * OUT_W <= u32::MAX)
}

/// The letterboxed placement of a `sw` x `sh` source inside the canvas.
pub fn placement_for(sw: u32, sh: u32) -> (r: Placement)
    requires
        placeable(sw, sh),
    ensures
        r == placement_of(sw as int, sh as int),
        r.w % 2 == 0 && r.h % 2 == 0 && r.off_x % 2 == 0 && r.off_y % 2 == 0,
        r.off_x + r.w <= OUT_W,
        r.off_y + r.h <= OUT_H,
        (r.w == 0 <==> sw == 0 || sh == 0) && (r.h == 0 <==> sw == 0 || sh == 0),
{
    if sw == 0 || sh == 0 {
        return Placement { w: 0, h: 0, off_x: OUT_W / 2, off_y: OUT_H / 2 };
    }
    let w: u32 = fit_axis(OUT_W, sw * OUT_H / sh);
    let h: u32 = fit_axis(OUT_H, sh * OUT_W / sw);
    let half_x: u32 = (OUT_W - w) / 2;
    let half_y: u32 = (OUT_H - h) / 2;
    Placement { w, h, off_x: half_x - half_x % 2, off_y: half_y - half_y % 2 }
}

/// Every image is even-sized, on even offsets, inside the canvas, and centred to
/// within the chroma grid.
pub proof fn law_placement_is_centred_inside_the_canvas(sw: int, sh: int)
    requires
        sw > 0,
        sh > 0,
    ensures
        ({
            let p = placement_of(sw, sh);
            &&& p.w % 2 == 0 && p.h % 2 == 0 && p.off_x % 2 == 0 && p.off_y % 2 == 0
            &&& 2 <= p.w && p.off_x + p.w <= OUT_W
            &&& 2 <= p.h && p.off_y + p.h <= OUT_H
            &&& 0 <= (OUT_W - p.w - p.off_x) - p.off_x <= 3
            &&& 0 <= (OUT_H - p.h - p.off_y) - p.off_y <= 3
        }),
{
    assert(sw * OUT_H / sh >= 0) by (nonlinear_arith)
        requires
            sw > 0,
            sh > 0,
    ;
    assert(sh * OUT_W / sw >= 0) by (nonlinear_arith)
        requires
            sw > 0,
            sh > 0,
    ;
}

/// The image fills the canvas on at least one axis: it is as large as the
/// aspect ratio allows.
pub proof fn law_placement_fills_one_axis(sw: int, sh: int)
    requires
        sw > 0,
        sh > 0,
    ensures
        placement_of(sw, sh).w == OUT_W || placement_of(sw, sh).h == OUT_H,
{
    let a = sw * OUT_H / sh;
    let b = sh * OUT_W / sw;
    assert(a >= OUT_W || b >= OUT_H) by (nonlinear_arith)
        requires
            sw > 0,
            sh > 0,
            a == sw * 360 / sh,
            b == sh * 640 / sw,
            OUT_W == 640,
            OUT_H == 360,
    {
        if sw * 360 >= sh * 640 {
            assert(a >= 640);
        } else {
            assert(b >= 360);
        }
    }
}

/// The source holds a whole NV12 image of its declared size.
pub open spec fn drawable(sw: int, sh: int, stride: int, len: int) -> bool {
    &&& sw > 0
    &&& sh > 0
    &&& stride >= sw
    &&& stride * sh + stride * (sh / 2) <= len
}

/// The byte of the canvas at luma column `x`, row `y`.
pub open spec fn luma_at(
    x: int,
    y: int,
    sw: int,
    sh: int,
    stride: int,
    src: Seq<u8>,
) -> u8 {
    let p = placement_of(sw, sh);
    if drawable(sw, sh, stride, src.len() as int) && p.off_x <= x < p.off_x + p.w && p.off_y <= y
        < p.off_y + p.h {
        src[((y - p.off_y) * sh / p.h as int) * stride + (x - p.off_x) * sw / p.w as int]
    } else {
        BLACK_Y
    }
}

/// The byte of the canvas at column `x` of chroma row `y`. Even columns hold U,
/// odd ones V; both halves of a pair come from the same source pair.
pub open spec fn chroma_at(
    x: int,
    y: int,
    sw: int,
    sh: int,
    stride: int,
    src: Seq<u8>,
) -> u8 {
    let p = placement_of(sw, sh);
    if drawable(sw, sh, stride, src.len() as int) && p.off_x <= x < p.off_x + p.w && p.off_y / 2
        <= y < p.off_y / 2 + p.h / 2 {
        let pair = (x - p.off_x) / 2;
        let row = (y - p.off_y / 2) * (sh / 2) / (p.h / 2) as int;
        let col = pair * (sw / 2) / (p.w / 2) as int;
        let at = stride * sh + row * stride + col * 2;
        if at + 1 < src.len() {
            src[at + (x - p.off_x) % 2]
        } else {
            NEUTRAL_C
        }
    } else {
        NEUTRAL_C
    }
}

/// The whole canvas for one source frame.
pub open spec fn canvas_of(sw: int, sh: int, stride: int, src: Seq<u8>) -> Seq<u8> {
    Seq::new(
        OUT_NV12_LEN as nat,
        |i: int|
            if i < OUT_Y_LEN {
                luma_at(i % OUT_W as int, i / OUT_W as int, sw, sh, stride, src)
            } else {
                chroma_at(
                    (i - OUT_Y_LEN) % OUT_W as int,
                    (i - OUT_Y_LEN) / OUT_W as int,
                    sw,
                    sh,
                    stride,
                    src,
                )
            },
    )
}

/// Scaling stays below the source length: `a * n / b < n` for `a < b`.
pub(crate) proof fn lemma_scaled_below(a: int, n: int, b: int)
    requires
        0 <= a < b,
        n >= 0,
    ensures
        0 <= a * n / b,
        n > 0 ==> a * n / b < n,
        n == 0 ==> a * n / b == 0,
        a * n <= b * n,
{
    lemma_fundamental_div_mod(a * n, b);
    let q = a * n / b;
    let r = (a * n) % b;
    assert(0 <= a * n <= b * n) by (nonlinear_arith)
        requires
            0 <= a < b,
            n >= 0,
    ;
    assert(0 <= q) by (nonlinear_arith)
        requires
            a * n == b * q + r,
            0 <= r < b,
            0 <= a * n,
            b > 0,
    ;
    if n > 0 {
        assert(q < n) by (nonlinear_arith)
            requires
                a * n == b * q + r,
                0 <= r < b,
                a < b,
                n > 0,
                0 <= a,
        ;
    } else {
        assert(a * n == 0) by (nonlinear_arith)
            requires
                n == 0,
        ;
        assert(q == 0) by (nonlinear_arith)
            requires
                0 == b * q + r,
                0 <= r < b,
        ;
    }
}

/// `a * n / b`, the source position of position `a` of `b`.
pub(crate) fn scaled(a: usize, n: usize, b: usize) -> (r: usize)
    requires
        a < b <= 0xffff_ffff,
        n <= 0xffff_ffff,
    ensures
        r == a * n / b as int,
        n > 0 ==> r < n,
{
    proof {
        lemma_scaled_below(a as int, n as int, b as int);
        assert(a * n <= 0xffff_ffff * 0xffff_ffff) by (nonlinear_arith)
            requires
                0 <= a <= 0xffff_ffff,
                0 <= n <= 0xffff_ffff,
        ;
    }
    (a as u64 * n as u64 / b as u64) as usize
}

pub(crate) proof fn lemma_luma_index(row: int, col: int, sw: int, sh: int, stride: int, len: int)
    requires
        drawable(sw, sh, stride, len),
        0 <= row < sh,
        0 <= col < sw,
    ensures
        0 <= row * stride <= row * stride + col < len,
{
    assert(0 <= row * stride && row * stride + stride <= stride * sh) by (nonlinear_arith)
        requires
            0 <= row < sh,
            stride >= 0,
    ;
    assert(0 <= stride * (sh / 2)) by (nonlinear_arith)
        requires
            stride >= 0,
            sh > 0,
    ;
}

proof fn lemma_chroma_index(row: int, col: int, sw: int, sh: int, stride: int, len: int)
    requires
        drawable(sw, sh, stride, len),
        0 <= row,
        row < sh / 2 || (row == 0 && sh / 2 == 0),
        0 <= col,
        col < sw / 2 || (col == 0 && sw / 2 == 0),
    ensures
        0 <= stride * sh <= stride * sh + row * stride <= len,
        col * 2 <= sw,
{
    assert(0 <= stride * sh) by (nonlinear_arith)
        requires
            stride >= 0,
            sh > 0,
    ;
    assert(0 <= row * stride <= stride * (sh / 2)) by (nonlinear_arith)
        requires
            0 <= row,
            row <= sh / 2,
            stride >= 0,
    ;
}

/// Letterbox an NV12 frame into the canvas `dst`: the scaled image, and black
/// everywhere else. A frame that is too short for its declared size leaves the
/// canvas black.
pub fn letterbox_nv12_into(sw: u32, sh: u32, stride: u32, src: &[u8], dst: &mut [u8])
    requires
        old(dst)@.len() == OUT_NV12_LEN,
        placeable(sw, sh),
    ensures
        final(dst)@ == canvas_of(sw as int, sh as int, stride as int, src@),
{
    let p: Placement = placement_for(sw, sh);
    let (sw_us, sh_us, stride_us): (usize, usize, usize) = (sw as usize, sh as usize, stride as usize);
    let drawn: bool = is_drawable(sw_us, sh_us, stride_us, src.len());
    let (dw, dh, ox, oy): (usize, usize, usize, usize) = (
        p.w as usize,
        p.h as usize,
        p.off_x as usize,
        p.off_y as usize,
    );
    let mut y: usize = 0;
    while y < 360
        invariant
            y <= 360,
            dst@.len() == OUT_NV12_LEN,
            blit_facts(sw, sh, stride, src@, p, drawn),
            (sw_us, sh_us, stride_us) == (sw as usize, sh as usize, stride as usize),
            (dw, dh, ox, oy) == (p.w as usize, p.h as usize, p.off_x as usize, p.off_y as usize),
            forall|i: int|
                0 <= i < y * 640 ==> #[trigger] dst@[i] == canvas_of(
                    sw as int,
                    sh as int,
                    stride as int,
                    src@,
                )[i],
        decreases 360 - y,
    {
        let inside: bool = drawn && oy <= y && y - oy < dh;
        let src_row: usize = if inside {
            proof {
                lemma_scaled_below((y - oy) as int, sh as int, dh as int);
                lemma_luma_index(
                    (y - oy) * sh / dh as int,
                    0,
                    sw as int,
                    sh as int,
                    stride as int,
                    src@.len() as int,
                );
            }
            scaled(y - oy, sh_us, dh) * stride_us
        } else {
            0
        };
        let mut x: usize = 0;
        while x < 640
            invariant
                x <= 640,
                y < 360,
                dst@.len() == OUT_NV12_LEN,
                blit_facts(sw, sh, stride, src@, p, drawn),
                (sw_us, sh_us, stride_us) == (sw as usize, sh as usize, stride as usize),
                (dw, dh, ox, oy) == (
                    p.w as usize,
                    p.h as usize,
                    p.off_x as usize,
                    p.off_y as usize,
                ),
                inside == (drawn && oy <= y && y - oy < dh),
                inside ==> src_row == ((y - oy) * sh / dh as int) * stride && 0 <= (y - oy) * sh
                    / dh as int && (y - oy) * sh / (dh as int) < sh,
                forall|i: int|
                    0 <= i < y * 640 + x ==> #[trigger] dst@[i] == canvas_of(
                        sw as int,
                        sh as int,
                        stride as int,
                        src@,
                    )[i],
            decreases 640 - x,
        {
            let value: u8 = if inside && ox <= x && x - ox < dw {
                proof {
                    lemma_scaled_below((x - ox) as int, sw as int, dw as int);
                    lemma_luma_index(
                        (y - oy) * sh / dh as int,
                        (x - ox) * sw / dw as int,
                        sw as int,
                        sh as int,
                        stride as int,
                        src@.len() as int,
                    );
                }
                src[src_row + scaled(x - ox, sw_us, dw)]
            } else {
                BLACK_Y
            };
            let at: usize = y * 640 + x;
            dst[at] = value;
            proof {
                assert(at as int % 640 == x && at as int / 640 == y);
            }
            x = x + 1;
        }
        y = y + 1;
    }
    let mut cy: usize = 0;
    while cy < 180
        invariant
            cy <= 180,
            dst@.len() == OUT_NV12_LEN,
            blit_facts(sw, sh, stride, src@, p, drawn),
            (sw_us, sh_us, stride_us) == (sw as usize, sh as usize, stride as usize),
            (dw, dh, ox, oy) == (p.w as usize, p.h as usize, p.off_x as usize, p.off_y as usize),
            forall|i: int|
                0 <= i < OUT_Y_LEN + cy * 640 ==> #[trigger] dst@[i] == canvas_of(
                    sw as int,
                    sh as int,
                    stride as int,
                    src@,
                )[i],
        decreases 180 - cy,
    {
        let inside: bool = drawn && oy / 2 <= cy && cy - oy / 2 < dh / 2;
        let src_row: usize = if inside {
            proof {
                lemma_scaled_below((cy - oy / 2) as int, (sh / 2) as int, (dh / 2) as int);
                lemma_chroma_index(
                    (cy - oy / 2) * (sh / 2) / (dh / 2) as int,
                    0,
                    sw as int,
                    sh as int,
                    stride as int,
                    src@.len() as int,
                );
            }
            stride_us * sh_us + scaled(cy - oy / 2, sh_us / 2, dh / 2) * stride_us
        } else {
            0
        };
        let mut x: usize = 0;
        while x < 640
            invariant
                x <= 640,
                cy < 180,
                dst@.len() == OUT_NV12_LEN,
                blit_facts(sw, sh, stride, src@, p, drawn),
                (sw_us, sh_us, stride_us) == (sw as usize, sh as usize, stride as usize),
                (dw, dh, ox, oy) == (
                    p.w as usize,
                    p.h as usize,
                    p.off_x as usize,
                    p.off_y as usize,
                ),
                inside == (drawn && oy / 2 <= cy && cy - oy / 2 < dh / 2),
                inside ==> src_row == stride * sh + ((cy - oy / 2) * (sh / 2) / (dh / 2) as int)
                    * stride && src_row <= src@.len(),
                forall|i: int|
                    0 <= i < OUT_Y_LEN + cy * 640 + x ==> #[trigger] dst@[i] == canvas_of(
                        sw as int,
                        sh as int,
                        stride as int,
                        src@,
                    )[i],
            decreases 640 - x,
        {
            let value: u8 = if inside && ox <= x && x - ox < dw {
                let pair: usize = (x - ox) / 2;
                proof {
                    lemma_scaled_below(pair as int, (sw / 2) as int, (dw / 2) as int);
                }
                let col: usize = scaled(pair, sw_us / 2, dw / 2);
                assert(src@.len() <= usize::MAX);
                let room: usize = src.len() - src_row;
                if col * 2 + 1 < room {
                    src[src_row + col * 2 + (x - ox) % 2]
                } else {
                    NEUTRAL_C
                }
            } else {
                NEUTRAL_C
            };
            let at: usize = OUT_Y_LEN + cy * 640 + x;
            dst[at] = value;
            proof {
                assert((at - OUT_Y_LEN) % 640 == x && (at - OUT_Y_LEN) / 640 == cy);
            }
            x = x + 1;
        }
        cy = cy + 1;
    }
    assert(dst@ =~= canvas_of(sw as int, sh as int, stride as int, src@));
}

/// What the blit loops know of the frame.
spec fn blit_facts(
    sw: u32,
    sh: u32,
    stride: u32,
    src: Seq<u8>,
    p: Placement,
    drawn: bool,
) -> bool {
    &&& placeable(sw, sh)
    &&& src.len() <= usize::MAX
    &&& p == placement_of(sw as int, sh as int)
    &&& p.w % 2 == 0 && p.h % 2 == 0 && p.off_x % 2 == 0 && p.off_y % 2 == 0
    &&& p.off_x + p.w <= OUT_W && p.off_y + p.h <= OUT_H
    &&& drawn == drawable(sw as int, sh as int, stride as int, src.len() as int)
    &&& drawn ==> p.w >= 2 && p.h >= 2
}

pub fn is_drawable(sw: usize, sh: usize, stride: usize, len: usize) -> (r: bool)
    ensures
        r == drawable(sw as int, sh as int, stride as int, len as int),
{
    if sw == 0 || sh == 0 || stride < sw {
        return false;
    }
    proof {
        assert(0 <= stride * sh && 0 <= stride * (sh / 2)) by (nonlinear_arith)
            requires
                stride >= 0,
                sh >= 0,
        ;
    }
    let y_size: usize = match stride.checked_mul(sh) {
        Some(v) => v,
        None => {
            return false;
        },
    };
    let uv_size: usize = match stride.checked_mul(sh / 2) {
        Some(v) => v,
        None => {
            return false;
        },
    };
    match y_size.checked_add(uv_size) {
        Some(need) => need <= len,
        None => false,
    }
}

/// `q` is `a * n / b` where `q` shares of `b` fit into `a * n` and no more.
pub(crate) proof fn lemma_scaled_is(a: int, n: int, b: int, q: int)
    requires
        b > 0,
        q * b <= a * n < (q + 1) * b,
    ensures
        a * n / b == q,
{
    let r = a * n - q * b;
    assert((q + 1) * b == q * b + b && q * b == b * q) by (nonlinear_arith);
    lemma_fundamental_div_mod_converse(a * n, b, q, r);
}

/// The image keeps the source's aspect ratio on both axes, as closely as an even
/// number of pixels can: neither axis is stretched past it, and one more pair of
/// pixels on an axis that is not full would be.
pub proof fn law_placement_keeps_the_aspect_ratio(sw: int, sh: int)
    requires
        sw > 0,
        sh > 0,
    ensures
        ({
            let p = placement_of(sw, sh);
            &&& p.w == 2 || p.w * sh <= sw * OUT_H
            &&& p.h == 2 || p.h * sw <= sh * OUT_W
            &&& p.w == OUT_W || sw * OUT_H < (p.w + 2) * sh
            &&& p.h == OUT_H || sh * OUT_W < (p.h + 2) * sw
        }),
{
    law_placement_is_centred_inside_the_canvas(sw, sh);
    let p = placement_of(sw, sh);
    lemma_axis_keeps_the_aspect_ratio(sw, sh, OUT_W as int, OUT_H as int);
    lemma_axis_keeps_the_aspect_ratio(sh, sw, OUT_H as int, OUT_W as int);
}

proof fn lemma_axis_keeps_the_aspect_ratio(a: int, b: int, full: int, other: int)
    requires
        a > 0,
        b > 0,
        full >= 2,
        full % 2 == 0,
        other > 0,
    ensures
        ({
            let l = fitted(full, a * other / b);
            &&& 2 <= l <= full
            &&& l == 2 || l * b <= a * other
            &&& l == full || a * other < (l + 2) * b
        }),
{
    let q = a * other / b;
    let l = fitted(full, q);
    lemma_fundamental_div_mod(a * other, b);
    assert(0 <= a * other) by (nonlinear_arith)
        requires
            a > 0,
            other > 0,
    ;
    assert(q * b <= a * other < (q + 1) * b) by (nonlinear_arith)
        requires
            a * other == b * q + (a * other) % b,
            0 <= (a * other) % b < b,
    ;
    assert(0 <= q) by (nonlinear_arith)
        requires
            0 <= a * other < (q + 1) * b,
            b > 0,
    ;
    if l != 2 {
        assert(l <= q);
        assert(l * b <= q * b) by (nonlinear_arith)
            requires
                l <= q,
                b > 0,
        ;
    }
    if l != full {
        assert(q + 1 <= l + 2);
        assert((q + 1) * b <= (l + 2) * b) by (nonlinear_arith)
            requires
                q + 1 <= l + 2,
                b > 0,
        ;
    }
}

/// A source without pixels has no image: the whole canvas is bars.
pub proof fn law_nothing_is_placed_for_no_pixels(sw: int, sh: int)
    requires
        sw == 0 || sh == 0,
    ensures
        placement_of(sw, sh).w == 0,
        placement_of(sw, sh).h == 0,
{
}

/// A source of the canvas's own size is the canvas, byte for byte, luma and chroma.
pub proof fn law_a_canvas_sized_source_is_unchanged(src: Seq<u8>)
    requires
        src.len() >= OUT_NV12_LEN,
    ensures
        canvas_of(OUT_W as int, OUT_H as int, OUT_W as int, src) == src.take(OUT_NV12_LEN as int),
{
    let canvas = canvas_of(640, 360, 640, src);
    let p = placement_of(640, 360);
    assert(p.w == 640 && p.h == 360 && p.off_x == 0 && p.off_y == 0);
    assert(drawable(640, 360, 640, src.len() as int));
    assert forall|i: int| 0 <= i < OUT_NV12_LEN implies canvas[i] == src[i] by {
        if i < OUT_Y_LEN {
            assert((i / 640) * 360 / 360 == i / 640);
            assert((i % 640) * 640 / 640 == i % 640);
        } else {
            let k = i - OUT_Y_LEN;
            assert((k / 640) * 180 / 180 == k / 640);
            assert(((k % 640) / 2) * 320 / 320 == (k % 640) / 2);
        }
    }
    assert(canvas =~= src.take(OUT_NV12_LEN as int));
}

/// Every luma byte of the image is the source's at the same relative place: row `y`
/// of the image shows the source row that the same share of the height lies above,
/// column `x` likewise. So the top row shows the top row, and nothing is mirrored.
pub proof fn law_the_image_shows_the_source(
    x: int,
    y: int,
    row: int,
    col: int,
    sw: int,
    sh: int,
    stride: int,
    src: Seq<u8>,
)
    requires
        drawable(sw, sh, stride, src.len() as int),
        0 <= x < placement_of(sw, sh).w,
        0 <= y < placement_of(sw, sh).h,
        row * placement_of(sw, sh).h <= y * sh < (row + 1) * placement_of(sw, sh).h,
        col * placement_of(sw, sh).w <= x * sw < (col + 1) * placement_of(sw, sh).w,
    ensures
        canvas_of(sw, sh, stride, src)[(placement_of(sw, sh).off_y + y) * OUT_W + placement_of(
            sw,
            sh,
        ).off_x + x] == src[row * stride + col],
{
    law_placement_is_centred_inside_the_canvas(sw, sh);
    let p = placement_of(sw, sh);
    lemma_scaled_is(y, sh, p.h as int, row);
    lemma_scaled_is(x, sw, p.w as int, col);
    let at = (p.off_y + y) * 640 + p.off_x + x;
    lemma_fundamental_div_mod_converse(at, 640, p.off_y + y, p.off_x + x);
    assert(0 <= at < OUT_Y_LEN);
}

/// Every chroma pair of the image is the source's pair at the same relative place,
/// U before V.
pub proof fn law_the_image_shows_the_colours(
    x: int,
    y: int,
    row: int,
    col: int,
    sw: int,
    sh: int,
    stride: int,
    src: Seq<u8>,
)
    requires
        drawable(sw, sh, stride, src.len() as int),
        sw >= 2,
        sh >= 2,
        0 <= x < placement_of(sw, sh).w / 2,
        0 <= y < placement_of(sw, sh).h / 2,
        row * (placement_of(sw, sh).h / 2) <= y * (sh / 2) < (row + 1) * (placement_of(sw, sh).h
            / 2),
        col * (placement_of(sw, sh).w / 2) <= x * (sw / 2) < (col + 1) * (placement_of(sw, sh).w
            / 2),
    ensures
        ({
            let p = placement_of(sw, sh);
            let at = OUT_Y_LEN + (p.off_y / 2 + y) * OUT_W + p.off_x + 2 * x;
            let from = stride * sh + row * stride + 2 * col;
            &&& canvas_of(sw, sh, stride, src)[at] == src[from]
            &&& canvas_of(sw, sh, stride, src)[at + 1] == src[from + 1]
        }),
{
    law_placement_is_centred_inside_the_canvas(sw, sh);
    let p = placement_of(sw, sh);
    lemma_scaled_is(y, sh / 2, (p.h / 2) as int, row);
    lemma_scaled_is(x, sw / 2, (p.w / 2) as int, col);
    lemma_scaled_below(y, sh / 2, (p.h / 2) as int);
    lemma_scaled_below(x, sw / 2, (p.w / 2) as int);
    let from = stride * sh + row * stride + 2 * col;
    assert(row * stride + stride <= stride * (sh / 2) && 0 <= row * stride && 0 <= stride * sh)
        by (nonlinear_arith)
        requires
            0 <= row < sh / 2,
            stride >= 0,
            sh > 0,
    ;
    assert(from + 1 < src.len());
    let line = (p.off_y / 2 + y) * 640;
    let left = p.off_x + 2 * x;
    lemma_fundamental_div_mod_converse(line + left, 640, p.off_y / 2 + y, left);
    lemma_fundamental_div_mod_converse(line + left + 1, 640, p.off_y / 2 + y, left + 1);
    assert((left - p.off_x) / 2 == x && (left + 1 - p.off_x) / 2 == x);
    assert((left - p.off_x) % 2 == 0 && (left + 1 - p.off_x) % 2 == 1);
    assert(0 <= line + left && line + left + 1 < 640 * 180);
}

/// Luma byte of row `row`, column `col`.
pub open spec fn luma_byte(src: Seq<u8>, stride: int, row: int, col: int) -> u8 {
    src[row * stride + col]
}

/// The image is upright: where the source gets no darker from a row to any row below
/// it, neither does the image.
pub proof fn law_the_image_is_upright(
    x: int,
    upper: int,
    lower: int,
    sw: int,
    sh: int,
    stride: int,
    src: Seq<u8>,
)
    requires
        drawable(sw, sh, stride, src.len() as int),
        0 <= x < placement_of(sw, sh).w,
        0 <= upper <= lower < placement_of(sw, sh).h,
        forall|a: int, b: int, c: int|
            0 <= a <= b < sh && 0 <= c < sw ==> #[trigger] luma_byte(src, stride, a, c)
                <= #[trigger] luma_byte(src, stride, b, c),
    ensures
        ({
            let p = placement_of(sw, sh);
            luma_byte(canvas_of(sw, sh, stride, src), OUT_W as int, p.off_y + upper, p.off_x + x)
                <= luma_byte(
                canvas_of(sw, sh, stride, src),
                OUT_W as int,
                p.off_y + lower,
                p.off_x + x,
            )
        }),
{
    let p = placement_of(sw, sh);
    let (a, b) = (upper * sh / p.h as int, lower * sh / p.h as int);
    let c = x * sw / p.w as int;
    lemma_sampled(upper, sh, p.h as int);
    lemma_sampled(lower, sh, p.h as int);
    lemma_sampled(x, sw, p.w as int);
    law_the_image_shows_the_source(x, upper, a, c, sw, sh, stride, src);
    law_the_image_shows_the_source(x, lower, b, c, sw, sh, stride, src);
    assert(upper * sh <= lower * sh) by (nonlinear_arith)
        requires
            upper <= lower,
            sh > 0,
    ;
    lemma_div_is_ordered(upper * sh, lower * sh, p.h as int);
    assert(luma_byte(src, stride, a, c) <= luma_byte(src, stride, b, c));
}

/// The image is not mirrored: where the source gets no darker from a column to any
/// column right of it, neither does the image.
pub proof fn law_the_image_is_not_mirrored(
    left: int,
    right: int,
    y: int,
    sw: int,
    sh: int,
    stride: int,
    src: Seq<u8>,
)
    requires
        drawable(sw, sh, stride, src.len() as int),
        0 <= left <= right < placement_of(sw, sh).w,
        0 <= y < placement_of(sw, sh).h,
        forall|r: int, a: int, b: int|
            0 <= r < sh && 0 <= a <= b < sw ==> #[trigger] luma_byte(src, stride, r, a)
                <= #[trigger] luma_byte(src, stride, r, b),
    ensures
        ({
            let p = placement_of(sw, sh);
            luma_byte(canvas_of(sw, sh, stride, src), OUT_W as int, p.off_y + y, p.off_x + left)
                <= luma_byte(
                canvas_of(sw, sh, stride, src),
                OUT_W as int,
                p.off_y + y,
                p.off_x + right,
            )
        }),
{
    let p = placement_of(sw, sh);
    let (a, b) = (left * sw / p.w as int, right * sw / p.w as int);
    let r = y * sh / p.h as int;
    lemma_sampled(left, sw, p.w as int);
    lemma_sampled(right, sw, p.w as int);
    lemma_sampled(y, sh, p.h as int);
    law_the_image_shows_the_source(left, y, r, a, sw, sh, stride, src);
    law_the_image_shows_the_source(right, y, r, b, sw, sh, stride, src);
    assert(left * sw <= right * sw) by (nonlinear_arith)
        requires
            left <= right,
            sw > 0,
    ;
    lemma_div_is_ordered(left * sw, right * sw, p.w as int);
    assert(luma_byte(src, stride, r, a) <= luma_byte(src, stride, r, b));
}

pub(crate) proof fn lemma_sampled(a: int, n: int, b: int)
    requires
        0 <= a < b,
        n > 0,
    ensures
        0 <= a * n / b < n,
        (a * n / b) * b <= a * n < (a * n / b + 1) * b,
{
    lemma_scaled_below(a, n, b);
    lemma_fundamental_div_mod(a * n, b);
    let q = a * n / b;
    assert(q * b <= a * n < (q + 1) * b) by (nonlinear_arith)
        requires
            a * n == b * q + (a * n) % b,
            0 <= (a * n) % b < b,
    ;
}

/// Outside the image the canvas is limited-range black, whatever the source holds;
/// and where the source is too short for its size, so is all of it.
pub proof fn law_the_bars_are_black(i: int, sw: int, sh: int, stride: int, src: Seq<u8>)
    requires
        0 <= i < OUT_NV12_LEN,
        ({
            let p = placement_of(sw, sh);
            let luma = i < OUT_Y_LEN;
            let k = if luma {
                i
            } else {
                i - OUT_Y_LEN
            };
            let (x, y) = (
                k % 640,
                if luma {
                    k / 640
                } else {
                    2 * (k / 640)
                },
            );
            ||| !drawable(sw, sh, stride, src.len() as int)
            ||| !(p.off_x <= x < p.off_x + p.w && p.off_y <= y < p.off_y + p.h)
        }),
    ensures
        canvas_of(sw, sh, stride, src)[i] == if i < OUT_Y_LEN {
            16u8
        } else {
            128u8
        },
{
    if sw > 0 && sh > 0 {
        law_placement_is_centred_inside_the_canvas(sw, sh);
    }
}

/// A frame is drawn exactly when it has pixels, its lines are no shorter than its
/// rows, and every line of both planes is there: one for each row of luma, one for
/// each two rows of chroma.
pub proof fn law_a_whole_frame_is_drawn(sw: int, sh: int, stride: int, len: int)
    ensures
        drawable(sw, sh, stride, len) <==> (sw >= 1 && sh >= 1 && sw <= stride && (sh + sh / 2)
            * stride <= len),
{
    assert((sh + sh / 2) * stride == stride * sh + stride * (sh / 2)) by (nonlinear_arith);
}

} // verus!
