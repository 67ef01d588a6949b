//! The shared genlock grid: absolute frame boundaries in 100 ns units.
//!
//! Boundary `k` of an `fps` grid is `floor(k * 10_000_000 / fps)`. The grid is
//! exact over whole seconds, so every process that reads the same clock lands
//! on the same boundaries.

use vstd::arithmetic::div_mod::{lemma_div_is_ordered, lemma_fundamental_div_mod};
use vstd::prelude::*;

verus! {

/// 100 ns units in one second.
pub const UNITS_PER_SECOND: i64 = 10_000_000;

/// Frame rate of the shared grid.
pub const GENLOCK_GRID_FPS: i64 = 30;

/// Most missed slots that are caught up one by one; a longer run resyncs.
pub const GENLOCK_MAX_CATCHUP_INTERVALS: i64 = 8;

/// Boundary number `k` of the `fps` grid.
pub open spec fn boundary(k: int, fps: int) -> int {
    (k * UNITS_PER_SECOND) / fps
}

/// Whether `x` lies on the `fps` grid.
pub open spec fn on_grid(x: int, fps: int) -> bool {
    exists|k: int| x == #[trigger] boundary(k, fps)
}

/// Number of the last boundary at or before `x`.
pub open spec fn boundary_index(x: int, fps: int) -> int {
    ((x + 1) * fps - 1) / (UNITS_PER_SECOND as int)
}

/// The last boundary at or before `x` (see [`law_floor_is_the_last_boundary`]).
pub open spec fn floor_of(x: int, fps: int) -> int {
    boundary(boundary_index(x, fps), fps)
}

/// The first boundary after `x` (see [`law_next_is_the_first_boundary_after`]).
pub open spec fn next_of(x: int, fps: int) -> int {
    boundary(boundary_index(x, fps) + 1, fps)
}

/// Nominal slot width of the grid; 0 when the grid is off.
pub open spec fn interval_of(fps: int) -> int {
    if fps <= 0 {
        0
    } else {
        UNITS_PER_SECOND as int / fps
    }
}

/// Whole slots from `boundary` to `floor_now`, never negative.
pub open spec fn lag_of(boundary: int, floor_now: int, fps: int) -> int {
    if fps <= 0 || floor_now <= boundary {
        0
    } else {
        (floor_now - boundary) / interval_of(fps)
    }
}

proof fn lemma_div_below(a: int, b: int, f: int)
    requires
        f > 0,
    ensures
        a < b * f <==> a / f < b,
{
    lemma_fundamental_div_mod(a, f);
    let q = a / f;
    let r = a % f;
    assert(a < b * f ==> q < b) by (nonlinear_arith)
        requires
            a == f * q + r,
            0 <= r < f,
            f > 0,
    ;
    assert(q < b ==> a < b * f) by (nonlinear_arith)
        requires
            a == f * q + r,
            0 <= r < f,
            f > 0,
    ;
}

/// The boundaries are numbered in ascending order.
pub proof fn law_boundaries_ascend(j: int, k: int, fps: int)
    requires
        fps > 0,
        j <= k,
    ensures
        boundary(j, fps) <= boundary(k, fps),
{
    lemma_div_is_ordered(j * UNITS_PER_SECOND, k * UNITS_PER_SECOND, fps);
}

/// A boundary lies at or before `x` exactly when its number is at most
/// `boundary_index(x)`.
pub proof fn law_index_splits_the_grid(k: int, x: int, fps: int)
    requires
        fps > 0,
    ensures
        boundary(k, fps) <= x <==> k <= boundary_index(x, fps),
{
    let u = UNITS_PER_SECOND as int;
    lemma_div_below(k * u, x + 1, fps);
    lemma_div_below((x + 1) * fps - 1, k, u);
}

/// `floor_of(x)` is the last boundary at or before `x`.
pub proof fn law_floor_is_the_last_boundary(x: int, fps: int)
    requires
        fps > 0,
    ensures
        on_grid(floor_of(x, fps), fps),
        floor_of(x, fps) <= x,
        forall|y: int| #[trigger] on_grid(y, fps) && y <= x ==> y <= floor_of(x, fps),
{
    law_index_splits_the_grid(boundary_index(x, fps), x, fps);
    assert forall|y: int| #[trigger] on_grid(y, fps) && y <= x implies y <= floor_of(x, fps) by {
        let k = choose|k: int| y == #[trigger] boundary(k, fps);
        law_index_splits_the_grid(k, x, fps);
        law_boundaries_ascend(k, boundary_index(x, fps), fps);
    }
}

/// `next_of(x)` is the first boundary after `x`.
pub proof fn law_next_is_the_first_boundary_after(x: int, fps: int)
    requires
        fps > 0,
    ensures
        on_grid(next_of(x, fps), fps),
        x < next_of(x, fps),
        forall|y: int| #[trigger] on_grid(y, fps) && x < y ==> next_of(x, fps) <= y,
{
    law_index_splits_the_grid(boundary_index(x, fps) + 1, x, fps);
    assert forall|y: int| #[trigger] on_grid(y, fps) && x < y implies next_of(x, fps) <= y by {
        let k = choose|k: int| y == #[trigger] boundary(k, fps);
        law_index_splits_the_grid(k, x, fps);
        law_boundaries_ascend(boundary_index(x, fps) + 1, k, fps);
    }
}

/// A boundary is its own floor.
pub proof fn law_floor_keeps_a_boundary(x: int, fps: int)
    requires
        fps > 0,
        on_grid(x, fps),
    ensures
        floor_of(x, fps) == x,
{
    law_floor_is_the_last_boundary(x, fps);
}

/// The slot that holds `x` starts at `floor_of(x)` and ends at `next_of(x)`:
/// every instant of one slot has the same floor and the same next boundary.
pub proof fn law_one_slot_one_floor(x: int, y: int, fps: int)
    requires
        fps > 0,
        floor_of(x, fps) <= y < next_of(x, fps),
    ensures
        floor_of(y, fps) == floor_of(x, fps),
        next_of(y, fps) == next_of(x, fps),
{
    law_floor_is_the_last_boundary(x, fps);
    law_floor_is_the_last_boundary(y, fps);
    law_next_is_the_first_boundary_after(x, fps);
    law_next_is_the_first_boundary_after(y, fps);
}

/// The boundary just before the end of the slot after boundary `x` is `x`
/// itself: stepping forward one slot and flooring one tick back returns.
pub proof fn law_floor_before_next_returns(x: int, fps: int)
    requires
        fps > 0,
        on_grid(x, fps),
    ensures
        floor_of(next_of(x, fps) - 1, fps) == x,
{
    law_floor_keeps_a_boundary(x, fps);
    law_next_is_the_first_boundary_after(x, fps);
    law_one_slot_one_floor(x, next_of(x, fps) - 1, fps);
}

/// Slots differ from the nominal width by at most one unit: each is
/// `interval_of(fps)` or one unit wider.
pub proof fn law_slot_width(k: int, fps: int)
    requires
        0 < fps,
    ensures
        interval_of(fps) <= boundary(k + 1, fps) - boundary(k, fps) <= interval_of(fps) + 1,
{
    let u = UNITS_PER_SECOND as int;
    lemma_fundamental_div_mod(k * u, fps);
    lemma_fundamental_div_mod((k + 1) * u, fps);
    lemma_fundamental_div_mod(u, fps);
    let (a, b, i) = ((k * u) / fps, ((k + 1) * u) / fps, u / fps);
    let (ra, rb, ri) = ((k * u) % fps, ((k + 1) * u) % fps, u % fps);
    assert(fps * (b - a - i) == ra + ri - rb) by (nonlinear_arith)
        requires
            k * u == fps * a + ra,
            (k + 1) * u == fps * b + rb,
            u == fps * i + ri,
    ;
    let d = b - a - i;
    assert(0 <= d <= 1) by (nonlinear_arith)
        requires
            fps * d == ra + ri - rb,
            0 <= ra < fps,
            0 <= ri < fps,
            0 <= rb < fps,
    ;
}

/// The next boundary comes within one nominal slot and one unit.
pub proof fn law_next_is_near(x: int, fps: int)
    requires
        0 < fps,
    ensures
        x < next_of(x, fps) <= x + interval_of(fps) + 1,
        x - interval_of(fps) - 1 < floor_of(x, fps) <= x,
{
    law_slot_width(boundary_index(x, fps), fps);
    law_floor_is_the_last_boundary(x, fps);
    law_next_is_the_first_boundary_after(x, fps);
}

proof fn lemma_interval_bound(fps: int)
    requires
        0 < fps,
    ensures
        0 <= interval_of(fps) <= UNITS_PER_SECOND,
{
    let u = UNITS_PER_SECOND as int;
    assert(0 <= u / fps <= u) by (nonlinear_arith)
        requires
            0 < fps,
            0 < u,
    ;
}

/// Nominal slot width; 0 when the grid is off (`fps <= 0`).
pub fn interval_100ns(fps: i64) -> (r: i64)
    ensures
        r == interval_of(fps as int),
        0 <= r <= UNITS_PER_SECOND,
{
    if fps <= 0 {
        0
    } else {
        proof {
            lemma_interval_bound(fps as int);
        }
        UNITS_PER_SECOND / fps
    }
}

/// Boundary number `k` of the grid, computed in 128 bits.
fn boundary_at(k: i128, fps: i64) -> (r: i128)
    requires
        fps > 0,
        -0x4000_0000_0000_0000_0000_0000_0000_0000 <= k * UNITS_PER_SECOND
            <= 0x4000_0000_0000_0000_0000_0000_0000_0000,
    ensures
        r == boundary(k as int, fps as int),
{
    let a: i128 = k * (UNITS_PER_SECOND as i128);
    proof {
        assert(-0x4000_0000_0000_0000_0000_0000_0000_0000 <= a / (fps as i128)
            <= 0x4000_0000_0000_0000_0000_0000_0000_0000) by (nonlinear_arith)
            requires
                fps > 0,
                -0x4000_0000_0000_0000_0000_0000_0000_0000 <= a
                    <= 0x4000_0000_0000_0000_0000_0000_0000_0000,
        ;
    }
    a.checked_div_euclid(fps as i128).unwrap()
}

/// Number of the last boundary at or before `x`, computed in 128 bits.
fn index_at(x: i64, fps: i64) -> (r: i128)
    requires
        fps > 0,
    ensures
        r == boundary_index(x as int, fps as int),
        -0x3fff_ffff_ffff_ffff_ffff_ffff_0000_0000 <= r * UNITS_PER_SECOND
            <= 0x3fff_ffff_ffff_ffff_ffff_ffff_0000_0000,
{
    let n: i128 = x as i128 + 1;
    proof {
        assert(-0x3fff_ffff_ffff_ffff_ffff_fffe_0000_0000 <= n * fps - 1
            <= 0x3fff_ffff_ffff_ffff_ffff_fffe_0000_0000) by (nonlinear_arith)
            requires
                0 < fps <= 0x7fff_ffff_ffff_ffff,
                -0x7fff_ffff_ffff_ffff <= n <= 0x8000_0000_0000_0000,
        ;
    }
    let a: i128 = n * (fps as i128) - 1;
    proof {
        lemma_fundamental_div_mod(a as int, UNITS_PER_SECOND as int);
    }
    a.checked_div_euclid(UNITS_PER_SECOND as i128).unwrap()
}

/// The last boundary at or before `now_100ns`.
pub fn floor_boundary_100ns(now_100ns: i64, fps: i64) -> (r: i64)
    requires
        fps > 0,
        now_100ns >= i64::MIN + UNITS_PER_SECOND,
    ensures
        r == floor_of(now_100ns as int, fps as int),
{
    let k: i128 = index_at(now_100ns, fps);
    proof {
        law_next_is_near(now_100ns as int, fps as int);
        lemma_interval_bound(fps as int);
    }
    boundary_at(k, fps) as i64
}

/// The first boundary strictly after `x_100ns`.
pub fn strict_next_boundary_100ns(x_100ns: i64, fps: i64) -> (r: i64)
    requires
        fps > 0,
        x_100ns < i64::MAX - UNITS_PER_SECOND,
    ensures
        r == next_of(x_100ns as int, fps as int),
        r > x_100ns,
{
    let k: i128 = index_at(x_100ns, fps);
    proof {
        law_next_is_near(x_100ns as int, fps as int);
        lemma_interval_bound(fps as int);
    }
    boundary_at(k + 1, fps) as i64
}

/// Whole slots that `floor_now` lies past `boundary`: 0 when it does not, and
/// 0 when the grid is off.
pub fn lag_slots_100ns(boundary_100ns: i64, floor_now_100ns: i64, fps: i64) -> (r: i64)
    requires
        fps <= UNITS_PER_SECOND,
        floor_now_100ns - boundary_100ns <= i64::MAX,
    ensures
        r == lag_of(boundary_100ns as int, floor_now_100ns as int, fps as int),
        r >= 0,
{
    if fps <= 0 || floor_now_100ns <= boundary_100ns {
        0
    } else {
        let width: i64 = interval_100ns(fps);
        let gap: i64 = floor_now_100ns - boundary_100ns;
        proof {
            assert(UNITS_PER_SECOND as int / fps as int >= 1) by (nonlinear_arith)
                requires
                    0 < fps <= UNITS_PER_SECOND,
            ;
            assert(0 <= gap as int / width as int <= gap) by (nonlinear_arith)
                requires
                    gap > 0,
                    width >= 1,
            ;
        }
        gap / width
    }
}

/// On the shared 30 fps grid the slot count between two boundaries is exact as
/// long as they lie within 300 000 slots (over two hours) of each other.
pub proof fn law_lag_counts_slots(j: int, k: int)
    requires
        0 <= k - j < 300_000,
    ensures
        lag_of(
            boundary(j, GENLOCK_GRID_FPS as int),
            boundary(k, GENLOCK_GRID_FPS as int),
            GENLOCK_GRID_FPS as int,
        ) == k - j,
{
    let b = boundary(k, 30) - boundary(j, 30);
    let n = k - j;
    assert(interval_of(30) == 333_333);
    assert(333_333 * n <= b < 333_333 * n + 333_333);
    if n > 0 {
        assert(b / 333_333 == n);
    } else {
        assert(b <= 0);
    }
}

/// Boundary `k` is the last whole unit at or before `k` slots of the exact rate, and the
/// grid repeats with every second: `fps` boundaries to the second, whole seconds among
/// them.
pub proof fn law_the_grid_repeats_every_second(k: int, fps: int)
    requires
        fps > 0,
    ensures
        boundary(k, fps) * fps <= k * 10_000_000 < (boundary(k, fps) + 1) * fps,
        boundary(k + fps, fps) == boundary(k, fps) + 10_000_000,
        boundary(k * fps, fps) == k * 10_000_000,
{
    let u = UNITS_PER_SECOND as int;
    let q = boundary(k, fps);
    lemma_fundamental_div_mod(k * u, fps);
    assert(q * fps <= k * u < (q + 1) * fps) by (nonlinear_arith)
        requires
            k * u == fps * q + (k * u) % fps,
            0 <= (k * u) % fps < fps,
    ;
    assert((k + fps) * u == (q + u) * fps + (k * u - q * fps)) by (nonlinear_arith);
    assert((q + 1) * fps == q * fps + fps) by (nonlinear_arith);
    vstd::arithmetic::div_mod::lemma_fundamental_div_mod_converse(
        (k + fps) * u,
        fps,
        q + u,
        k * u - q * fps,
    );
    assert((k * fps) * u == (k * u) * fps) by (nonlinear_arith);
    vstd::arithmetic::div_mod::lemma_fundamental_div_mod_converse((k * fps) * u, fps, k * u, 0);
}

/// Nothing that lies at or before a boundary is past it, and without a grid nothing is.
pub proof fn law_no_lag_before_the_boundary(boundary: int, floor_now: int, fps: int)
    ensures
        floor_now <= boundary ==> lag_of(boundary, floor_now, fps) == 0,
        fps <= 0 ==> lag_of(boundary, floor_now, fps) == 0 && interval_of(fps) == 0,
        fps > 0 ==> interval_of(fps) * fps <= 10_000_000 < (interval_of(fps) + 1) * fps,
{
    if fps > 0 {
        let q = interval_of(fps);
        lemma_fundamental_div_mod(10_000_000, fps);
        assert(q * fps <= 10_000_000 < (q + 1) * fps) by (nonlinear_arith)
            requires
                10_000_000 == fps * q + 10_000_000int % fps,
                0 <= 10_000_000int % fps < fps,
        ;
    }
}

} // verus!
