//! Fixed-point 2D coordinates.
//!
//! A coordinate is an `i64` counting thousandths of a unit: the value `v`
//! stands for the real number `v / SCALE`. All geometry in this crate is
//! exact integer arithmetic over this representation; where a real-valued
//! operation (normalization, averaging) does not land on the grid, the result
//! is rounded toward zero, and the contracts state that rounding explicitly.

use vstd::prelude::*;

verus! {

/// Number of fixed-point steps per unit of length.
pub const SCALE: i64 = 1000;

/// Largest magnitude (in fixed-point steps) a coordinate handed to the
/// geometry functions may have; keeps every intermediate product inside
/// `i64`/`u64` range.
pub const MAX_COORD: i64 = 1_000_000_000;

/// A 2D point or direction vector in fixed-point coordinates.
#[derive(Clone, Copy, Debug, Default, PartialEq, Eq, Structural)]
pub struct Vec2 {
    pub x: i64,
    pub y: i64,
}

/// An axis-aligned box given by its minimum and maximum corners.
#[derive(Clone, Copy, Debug, Default, PartialEq, Eq, Structural)]
pub struct Aabb {
    pub mins: Vec2,
    pub maxs: Vec2,
}

/// Both components of `v` have magnitude at most `b`.
pub open spec fn in_range(v: Vec2, b: int) -> bool {
    -b <= v.x <= b && -b <= v.y <= b
}

/// Integer division rounding toward zero (the rounding every coordinate
/// computation in this crate uses), for a positive divisor.
pub open spec fn tz(a: int, b: int) -> int
    recommends
        b > 0,
{
    if a >= 0 {
        a / b
    } else {
        -((-a) / b)
    }
}

/// The `Vec2` with the given components (which must fit in `i64`).
pub open spec fn v2(x: int, y: int) -> Vec2 {
    Vec2 { x: x as i64, y: y as i64 }
}

/// The componentwise negation of `v`.
pub open spec fn negv(v: Vec2) -> Vec2
    recommends
        i64::MIN < v.x && i64::MIN < v.y,
{
    v2(-(v.x as int), -(v.y as int))
}

/// `tz` is odd in its dividend.
pub proof fn lemma_tz_neg(a: int, b: int)
    requires
        b > 0,
    ensures
        tz(-a, b) == -tz(a, b),
{
    if a == 0 {
        vstd::arithmetic::div_mod::lemma_div_of0(b);
        assert(tz(0int, b) == 0int / b);
    }
}

/// Dividing a value of magnitude at most `m * b` by `b` (toward zero) gives a
/// value of magnitude at most `m`.
pub proof fn lemma_tz_scaled_bound(a: int, b: int, m: int)
    requires
        b > 0,
        0 <= m,
        -(m * b) <= a <= m * b,
    ensures
        -m <= tz(a, b) <= m,
{
    vstd::arithmetic::div_mod::lemma_div_multiples_vanish(m, b);
    assert((b * m) / b == m);
    assert(b * m == m * b);
    if a >= 0 {
        vstd::arithmetic::div_mod::lemma_div_is_ordered(a, m * b, b);
        vstd::arithmetic::div_mod::lemma_div_pos_is_pos(a, b);
    } else {
        vstd::arithmetic::div_mod::lemma_div_is_ordered(-a, m * b, b);
        vstd::arithmetic::div_mod::lemma_div_pos_is_pos(-a, b);
    }
}

/// The integer square root: the largest `r` with `r * r <= n`.
pub open spec fn isqrt_of(n: nat) -> nat
    decreases n,
{
    if n == 0 {
        0
    } else {
        let p = isqrt_of((n - 1) as nat);
        if (p + 1) * (p + 1) <= n {
            (p + 1) as nat
        } else {
            p
        }
    }
}

/// `isqrt_of(n)` is indeed the integer square root of `n`.
pub proof fn lemma_isqrt_property(n: nat)
    ensures
        isqrt_of(n) * isqrt_of(n) <= n,
        n < (isqrt_of(n) + 1) * (isqrt_of(n) + 1),
    decreases n,
{
    if n == 0 {
        assert(isqrt_of(0) == 0);
        assert((isqrt_of(n) + 1) * (isqrt_of(n) + 1) == 1) by (nonlinear_arith)
            requires
                n == 0nat && isqrt_of(0) == 0nat,
        ;
    } else {
        lemma_isqrt_property((n - 1) as nat);
        let p = isqrt_of((n - 1) as nat);
        assert(p * p <= n - 1);
        assert(n - 1 < (p + 1) * (p + 1));
        if (p + 1) * (p + 1) <= n {
            assert(isqrt_of(n) == p + 1);
            assert(n <= (p + 1) * (p + 1));
            assert((p + 1) * (p + 1) < (p + 2) * (p + 2)) by (nonlinear_arith);
            assert(n < (p + 2) * (p + 2));
            assert(isqrt_of(n) + 1 == p + 2);
            assert((isqrt_of(n) + 1) * (isqrt_of(n) + 1) == (p + 2) * (p + 2));
        } else {
            assert(isqrt_of(n) == p);
            assert(n < (p + 1) * (p + 1));
            assert((isqrt_of(n) + 1) * (isqrt_of(n) + 1) == (p + 1) * (p + 1));
        }
    }
}

/// Any `r` with `r * r <= n < (r + 1) * (r + 1)` equals `isqrt_of(n)`.
pub proof fn lemma_isqrt_unique(n: nat, r: nat)
    requires
        r * r <= n,
        n < (r + 1) * (r + 1),
    ensures
        r == isqrt_of(n),
{
    let q = isqrt_of(n);
    lemma_isqrt_property(n);
    if r < q {
        assert((r + 1) * (r + 1) <= q * q) by (nonlinear_arith)
            requires
                r + 1 <= q,
        ;
    }
    if q < r {
        assert((q + 1) * (q + 1) <= r * r) by (nonlinear_arith)
            requires
                q + 1 <= r,
        ;
    }
}

/// The integer square root does not decrease when its argument grows.
pub proof fn lemma_isqrt_ordered(a: nat, b: nat)
    requires
        a <= b,
    ensures
        isqrt_of(a) <= isqrt_of(b),
{
    lemma_isqrt_property(a);
    lemma_isqrt_property(b);
    let ra = isqrt_of(a);
    let rb = isqrt_of(b);
    if rb < ra {
        assert((rb + 1) * (rb + 1) <= ra * ra) by (nonlinear_arith)
            requires
                rb + 1 <= ra,
        ;
    }
}

/// A perfect square is its own square root squared.
pub proof fn lemma_isqrt_square(a: nat)
    ensures
        isqrt_of(a * a) == a,
{
    assert(a * a < (a + 1) * (a + 1)) by (nonlinear_arith);
    lemma_isqrt_unique(a * a, a);
}

/// Integer square root of a `u64`, by bisection.
pub fn isqrt64(n: u64) -> (r: u64)
    ensures
        r == isqrt_of(n as nat),
        r <= 0x1_0000_0000u64,
{
    let mut lo: u64 = 0;
    let mut hi: u64 = 0x1_0000_0000;
    assert((hi as nat) * (hi as nat) > n as nat) by (nonlinear_arith)
        requires
            hi == 0x1_0000_0000u64 && n <= u64::MAX,
    ;
    while lo + 1 < hi
        invariant
            lo < hi <= 0x1_0000_0000u64,
            (lo as nat) * (lo as nat) <= n as nat,
            (n as nat) < (hi as nat) * (hi as nat),
        decreases hi - lo,
    {
        let mid = lo + (hi - lo) / 2;
        proof {
            assert((mid as nat) * (mid as nat) <= 0x1_0000_0000_0000_0000) by (nonlinear_arith)
                requires
                    mid <= 0x1_0000_0000u64,
            ;
        }
        let sq: u128 = (mid as u128) * (mid as u128);
        if sq <= n as u128 {
            lo = mid;
        } else {
            hi = mid;
        }
    }
    proof {
        lemma_isqrt_unique(n as nat, lo as nat);
    }
    lo
}

/// Division rounding toward zero, as `tz` states it.
pub fn div_tz(a: i64, b: i64) -> (r: i64)
    requires
        1 <= b,
        i64::MIN < a,
    ensures
        r == tz(a as int, b as int),
        a >= 0 ==> 0 <= r <= a,
        a < 0 ==> a <= r <= 0,
{
    proof {
        vstd::arithmetic::div_mod::lemma_div_pos_is_pos(if a >= 0 { a as int } else { -(a as int) }, b as int);
        vstd::arithmetic::div_mod::lemma_div_is_ordered_by_denominator(if a >= 0 { a as int } else { -(a as int) }, 1, b as int);
        vstd::arithmetic::div_mod::lemma_div_basics(if a >= 0 { a as int } else { -(a as int) });
    }
    if a >= 0 {
        ((a as u64) / (b as u64)) as i64
    } else {
        let m: u64 = (-a) as u64;
        -((m / (b as u64)) as i64)
    }
}

/// The length of the vector `(dx, dy)`, rounded down to the fixed-point grid.
pub open spec fn vlen(dx: int, dy: int) -> int {
    isqrt_of((dx * dx + dy * dy) as nat) as int
}

/// No component of a vector exceeds the vector's length.
pub proof fn lemma_component_le_len(dx: int, dy: int)
    ensures
        -vlen(dx, dy) <= dx <= vlen(dx, dy),
        -vlen(dx, dy) <= dy <= vlen(dx, dy),
{
    let ax = if dx >= 0 { dx } else { -dx };
    let ay = if dy >= 0 { dy } else { -dy };
    assert(ax * ax == dx * dx && ay * ay == dy * dy && 0 <= dx * dx && 0 <= dy * dy)
        by (nonlinear_arith)
        requires
            ax == (if dx >= 0 { dx } else { -dx }) && ay == (if dy >= 0 { dy } else { -dy }),
    ;
    lemma_isqrt_square(ax as nat);
    lemma_isqrt_square(ay as nat);
    lemma_isqrt_ordered((dx * dx) as nat, (dx * dx + dy * dy) as nat);
    lemma_isqrt_ordered((dy * dy) as nat, (dx * dx + dy * dy) as nat);
    assert(isqrt_of((ax * ax) as nat) == ax);
    assert(isqrt_of((ay * ay) as nat) == ay);
}

/// A vector with a nonzero component has positive length.
pub proof fn lemma_vlen_positive(dx: int, dy: int)
    requires
        !(dx == 0 && dy == 0),
    ensures
        vlen(dx, dy) >= 1,
{
    assert(dx * dx + dy * dy >= 1) by (nonlinear_arith)
        requires
            !(dx == 0 && dy == 0),
    ;
    let n = (dx * dx + dy * dy) as nat;
    let q = isqrt_of(n);
    lemma_isqrt_property(n);
    if q == 0 {
        assert((q + 1) * (q + 1) == 1) by (nonlinear_arith)
            requires
                q == 0nat,
        ;
        assert(false);
    }
}

/// The length of a vector is unchanged by negation.
pub proof fn lemma_vlen_neg(dx: int, dy: int)
    ensures
        vlen(-dx, -dy) == vlen(dx, dy),
{
    assert((-dx) * (-dx) == dx * dx && (-dy) * (-dy) == dy * dy) by (nonlinear_arith);
}

/// The magnitude `isqrt(dx*dx + dy*dy)` of the vector `(dx, dy)`, in
/// fixed-point steps.
pub fn hyp_len(dx: i64, dy: i64) -> (r: i64)
    requires
        -2_000_000_000 <= dx <= 2_000_000_000,
        -2_000_000_000 <= dy <= 2_000_000_000,
    ensures
        r == vlen(dx as int, dy as int),
        0 <= r <= 3_000_000_000,
        (dx != 0 || dy != 0) ==> r >= 1,
{
    proof {
        assert(0 <= dx * dx <= 4_000_000_000_000_000_000 && 0 <= dy * dy <= 4_000_000_000_000_000_000)
            by (nonlinear_arith)
            requires
                -2_000_000_000 <= dx <= 2_000_000_000 && -2_000_000_000 <= dy <= 2_000_000_000,
        ;
    }
    let s: u64 = (dx * dx + dy * dy) as u64;
    let r = isqrt64(s);
    proof {
        lemma_isqrt_property(s as nat);
        assert((r as nat) * (r as nat) <= s as nat);
        assert((s as nat) < (r as nat + 1) * (r as nat + 1));
        if r > 3_000_000_000 {
            assert((r as nat) * (r as nat) > 8_000_000_000_000_000_000) by (nonlinear_arith)
                requires
                    r > 3_000_000_000u64,
            ;
            assert(false);
        }
        if dx != 0 || dy != 0 {
            assert(dx * dx + dy * dy >= 1) by (nonlinear_arith)
                requires
                    dx != 0 || dy != 0,
            ;
            if r == 0 {
                assert((r as nat + 1) * (r as nat + 1) == 1) by (nonlinear_arith)
                    requires
                        r == 0u64,
                ;
                assert((s as nat) < 1);
                assert(false);
            }
        }
    }
    r as i64
}

} // verus!
