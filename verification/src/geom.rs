//! Plane geometry for the combat simulation.
//!
//! All coordinates are fixed-point integers: thousandths of a world unit.
//! Distances are compared through their squares, so no square root is needed
//! for the hit tests; an exact integer square root is provided for the few
//! places that scale a vector to a fixed length.

use vstd::prelude::*;

verus! {

/// Bound on the coordinates the geometry helpers accept; it keeps every
/// intermediate product of the hit tests inside `i64`/`i128` range.
pub const GEOM_BOUND: i64 = 100_000_000;

/// A point or displacement in the plane, in thousandths of a world unit.
#[derive(Clone, Copy, PartialEq, Eq, Structural, Debug)]
pub struct Vec2 {
    pub x: i64,
    pub y: i64,
}

pub open spec fn bounded(p: Vec2, b: int) -> bool {
    &&& -b <= p.x <= b
    &&& -b <= p.y <= b
}

/// Squared Euclidean distance between two points.
pub open spec fn dist2(a: Vec2, b: Vec2) -> int {
    (a.x - b.x) * (a.x - b.x) + (a.y - b.y) * (a.y - b.y)
}

pub fn distance_squared(a: Vec2, b: Vec2) -> (d: i64)
    requires
        bounded(a, GEOM_BOUND as int),
        bounded(b, GEOM_BOUND as int),
    ensures
        d == dist2(a, b),
{
    let dx: i64 = a.x - b.x;
    let dy: i64 = a.y - b.y;
    proof {
        lemma_square_bound(dx as int, 2 * GEOM_BOUND as int);
        lemma_square_bound(dy as int, 2 * GEOM_BOUND as int);
    }
    dx * dx + dy * dy
}

/// A square grows with the magnitude of its root.
pub proof fn lemma_square_bound(v: int, b: int)
    requires
        -b <= v <= b,
        0 <= b,
    ensures
        0 <= v * v <= b * b,
{
    assert(0 <= v * v <= b * b) by (nonlinear_arith)
        requires
            -b <= v <= b,
            0 <= b,
    ;
}

/// The largest `r` with `r * r <= n`.
pub open spec fn sqrt_floor(n: nat) -> nat
    decreases n,
{
    if n == 0 {
        0
    } else {
        let r = sqrt_floor((n - 1) as nat);
        if (r + 1) * (r + 1) <= n {
            r + 1
        } else {
            r
        }
    }
}

pub proof fn lemma_sqrt_floor(n: nat)
    ensures
        sqrt_floor(n) * sqrt_floor(n) <= n,
        n < (sqrt_floor(n) + 1) * (sqrt_floor(n) + 1),
    decreases n,
{
    if n == 0 {
        assert(sqrt_floor(0) == 0);
        assert(n < (sqrt_floor(n) + 1) * (sqrt_floor(n) + 1)) by (nonlinear_arith)
            requires
                n == 0,
                sqrt_floor(n) == 0,
        ;
    } else {
        lemma_sqrt_floor((n - 1) as nat);
        let r = sqrt_floor((n - 1) as nat);
        assert(r * r <= n - 1);
        assert(n - 1 < (r + 1) * (r + 1));
        if (r + 1) * (r + 1) <= n {
            assert(sqrt_floor(n) == r + 1);
            assert(sqrt_floor(n) * sqrt_floor(n) <= n);
            assert(n < (r + 2) * (r + 2)) by (nonlinear_arith)
                requires
                    n <= (r + 1) * (r + 1),
                    0 <= r,
            ;
            assert((sqrt_floor(n) + 1) * (sqrt_floor(n) + 1) == (r + 2) * (r + 2));
            assert(n < (sqrt_floor(n) + 1) * (sqrt_floor(n) + 1));
        } else {
            assert(sqrt_floor(n) == r);
            assert(sqrt_floor(n) * sqrt_floor(n) <= n);
            assert(n < (sqrt_floor(n) + 1) * (sqrt_floor(n) + 1));
        }
    }
}

/// `sqrt_floor` is the unique value between the two squares.
pub proof fn lemma_sqrt_floor_unique(n: nat, r: nat)
    requires
        r * r <= n,
        n < (r + 1) * (r + 1),
    ensures
        r == sqrt_floor(n),
{
    lemma_sqrt_floor(n);
    let s = sqrt_floor(n);
    assert(r == s) by (nonlinear_arith)
        requires
            r * r <= n,
            n < (r + 1) * (r + 1),
            s * s <= n,
            n < (s + 1) * (s + 1),
    ;
}

/// A product of factors of bounded magnitude is bounded by the product of the
/// bounds.
pub proof fn lemma_mul_abs_le(a: int, b: int, ca: int, cb: int)
    requires
        -ca <= a <= ca,
        -cb <= b <= cb,
        0 <= ca,
        0 <= cb,
    ensures
        -(ca * cb) <= a * b <= ca * cb,
{
    assert(-(ca * cb) <= a * b <= ca * cb) by (nonlinear_arith)
        requires
            -ca <= a <= ca,
            -cb <= b <= cb,
            0 <= ca,
            0 <= cb,
    ;
}

/// A product of bounded non-negative factors is bounded by the product of the
/// bounds.
pub proof fn lemma_mul_le(a: int, b: int, ca: int, cb: int)
    requires
        0 <= a <= ca,
        0 <= b <= cb,
    ensures
        0 <= a * b <= ca * cb,
{
    assert(0 <= a * b <= ca * cb) by (nonlinear_arith)
        requires
            0 <= a <= ca,
            0 <= b <= cb,
    ;
}

/// Anything whose square fits under `n` is at most `sqrt_floor(n)`.
pub proof fn lemma_sqrt_floor_at_least(n: nat, a: nat)
    requires
        a * a <= n,
    ensures
        a <= sqrt_floor(n),
{
    lemma_sqrt_floor(n);
    let s = sqrt_floor(n);
    assert(a <= s) by (nonlinear_arith)
        requires
            a * a <= n,
            n < (s + 1) * (s + 1),
            0 <= a,
            0 <= s,
    ;
}

/// Exact integer square root by binary search.
pub fn int_sqrt(n: u64) -> (r: u64)
    ensures
        r == sqrt_floor(n as nat),
        r * r <= n,
{
    let mut lo: u64 = 0;
    let mut hi: u64 = 0x1_0000_0000;
    proof {
        assert((hi as int) * (hi as int) == 0x1_0000_0000_0000_0000);
    }
    while lo + 1 < hi
        invariant
            lo < hi <= 0x1_0000_0000,
            (lo as int) * (lo as int) <= n,
            (n as int) < (hi as int) * (hi as int),
        decreases hi - lo,
    {
        let mid: u64 = lo + (hi - lo) / 2;
        assert(lo < mid < hi);
        assert((mid as int) * (mid as int) < 0x1_0000_0000_0000_0000) by (nonlinear_arith)
            requires
                mid < 0x1_0000_0000u64,
        ;
        if mid * mid <= n {
            lo = mid;
        } else {
            hi = mid;
        }
    }
    proof {
        lemma_sqrt_floor_unique(n as nat, lo as nat);
    }
    lo
}

/// `diff * step / d`, dividing with truncation toward zero as the executable
/// code does: the magnitude is scaled, then the sign of `diff` is restored.
pub open spec fn scale_toward(diff: int, step: int, d: int) -> int
    recommends
        d > 0,
{
    if diff >= 0 {
        diff * step / d
    } else {
        -((-diff) * step / d)
    }
}

/// A component scaled by `step / d` never exceeds `step` when the component's
/// square root bound `d` dominates it.
pub proof fn lemma_scaled_step_bounded(c: int, step: int, d: int)
    requires
        0 <= c <= d,
        0 < d,
        0 <= step,
    ensures
        0 <= c * step / d <= step,
{
    assert(c * step <= d * step) by (nonlinear_arith)
        requires
            0 <= c <= d,
            0 <= step,
    ;
    assert(0 <= c * step) by (nonlinear_arith)
        requires
            0 <= c,
            0 <= step,
    ;
    vstd::arithmetic::div_mod::lemma_div_is_ordered(c * step, d * step, d);
    vstd::arithmetic::div_mod::lemma_div_by_multiple(step, d);
    vstd::arithmetic::mul::lemma_mul_is_commutative(d, step);
    vstd::arithmetic::div_mod::lemma_div_pos_is_pos(c * step, d);
}

/// Clamp `v` into `[lo, hi]`.
pub open spec fn clamp(v: int, lo: int, hi: int) -> int {
    if v < lo {
        lo
    } else if v > hi {
        hi
    } else {
        v
    }
}

pub fn clamp_i64(v: i64, lo: i64, hi: i64) -> (r: i64)
    requires
        lo <= hi,
    ensures
        r == clamp(v as int, lo as int, hi as int),
{
    if v < lo {
        lo
    } else if v > hi {
        hi
    } else {
        v
    }
}

} // verus!
