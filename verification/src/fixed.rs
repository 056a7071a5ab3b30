//! Fixed-point arithmetic on lengths and coordinates.

use vstd::prelude::*;

verus! {

/// Number of fixed-point units in one pixel.
pub const UNIT: i64 = 1000;

/// Number of fixed-point units in half a pixel.
pub const HALF_UNIT: i64 = 500;

/// The length of a unit direction vector.
pub const DIR_ONE: i64 = 1_000_000;

/// Largest magnitude of a length or coordinate that the outline builder takes.
pub const COORD_LIMIT: i64 = 0x400_0000_0000;

/// Largest magnitude of a length that can be projected on a direction.
pub const PROJECT_LIMIT: i64 = 0x1000_0000_0000;

/// Largest magnitude of a projected length.
pub const PROJECTED_LIMIT: i64 = 0x100_0000_0000_0000;

/// Largest magnitude of a coordinate of a point on a spoke's axis.
pub const AXIS_LIMIT: i64 = 0x100_0400_0000_0000;

/// Whether `v` is a length or coordinate that the outline builder takes.
pub open spec fn in_range(v: int) -> bool {
    -COORD_LIMIT <= v <= COORD_LIMIT
}

/// Quotient of `n` by a positive `d`, rounded to the nearest integer, halves upward.
pub open spec fn round_div(n: int, d: int) -> int {
    (n + d / 2) / d
}

/// `v` times `pct` hundredths, rounded.
pub open spec fn percent(v: int, pct: int) -> int {
    round_div(v * pct, 100)
}

/// A rounded quotient lies between two bounds whenever the dividend lies
/// between their multiples of the divisor.
pub proof fn lemma_round_div_between(n: int, d: int, lo: int, hi: int)
    requires
        d > 0,
        lo * d <= n <= hi * d,
    ensures
        lo <= round_div(n, d) <= hi,
{
    let h = d / 2;
    assert(0 <= h < d);
    assert(lo <= (n + h) / d) by (nonlinear_arith)
        requires d > 0, lo * d <= n + h;
    assert((hi + 1) * d == hi * d + d) by (nonlinear_arith);
    assert((n + h) / d <= hi) by (nonlinear_arith)
        requires d > 0, n + h < (hi + 1) * d;
}

/// A rounded quotient by an even divisor, multiplied by the divisor, lies
/// within half the divisor of the dividend.
pub proof fn lemma_round_div_error(n: int, d: int)
    requires
        d > 0,
        d % 2 == 0,
    ensures
        -(d / 2) <= d * round_div(n, d) - n <= d / 2,
{
    let h = d / 2;
    let m = n + h;
    assert(d * (m / d) <= m < d * (m / d) + d) by (nonlinear_arith)
        requires
            d > 0,
    ;
}

/// A rounded quotient of an exact multiple is the multiplier.
pub proof fn lemma_round_div_exact(q: int, d: int)
    requires
        d > 0,
    ensures
        round_div(q * d, d) == q,
{
    lemma_round_div_between(q * d, d, q, q);
}

/// The product of `a` and `b` divided by `d`, rounded.
pub fn mul_div_round(a: i64, b: i64, d: i64) -> (q: i128)
    requires
        d > 0,
    ensures
        q == round_div(a * b, d as int),
{
    assert(-0x4000_0000_0000_0000_0000_0000_0000_0000 <= a * b
        <= 0x4000_0000_0000_0000_0000_0000_0000_0000) by (nonlinear_arith)
        requires
            -0x8000_0000_0000_0000 <= a <= 0x8000_0000_0000_0000,
            -0x8000_0000_0000_0000 <= b <= 0x8000_0000_0000_0000,
    ;
    let wide: i128 = (a as i128) * (b as i128);
    div_round(wide, d)
}

/// `n` divided by `d`, rounded.
pub fn div_round(n: i128, d: i64) -> (q: i128)
    requires
        d > 0,
        -0x4000_0000_0000_0000_0000_0000_0000_0000 <= n
            <= 0x4000_0000_0000_0000_0000_0000_0000_0000,
    ensures
        q == round_div(n as int, d as int),
{
    let wide: i128 = d as i128;
    let shifted: i128 = n + wide / 2;
    assert(i128::MIN <= shifted / wide <= i128::MAX) by (nonlinear_arith)
        requires
            wide > 0,
            i128::MIN <= shifted <= i128::MAX,
    ;
    match shifted.checked_div_euclid(wide) {
        Some(q) => q,
        None => 0,
    }
}

/// Half of `v`, rounded down.
pub fn half(v: i64) -> (h: i64)
    ensures
        h == v / 2,
{
    match v.checked_div_euclid(2) {
        Some(h) => h,
        None => 0,
    }
}

/// The mean of `a` and `b`, rounded down.
pub fn mean(a: i64, b: i64) -> (m: i64)
    ensures
        m == (a + b) / 2,
{
    let sum: i128 = a as i128 + b as i128;
    match sum.checked_div_euclid(2) {
        Some(m) => m as i64,
        None => 0,
    }
}

/// `v` times `pct` hundredths, rounded.
pub fn percent_of(v: i64, pct: i64) -> (r: i64)
    requires
        0 <= pct <= 100,
    ensures
        r == percent(v as int, pct as int),
        v >= 0 ==> 0 <= r <= v,
        v <= 0 ==> v <= r <= 0,
{
    let q = mul_div_round(v, pct, 100);
    proof {
        if v >= 0 {
            assert(0 <= v * pct <= v * 100) by (nonlinear_arith)
                requires v >= 0, 0 <= pct <= 100;
            lemma_round_div_between(v * pct, 100, 0, v as int);
        } else {
            assert(v * 100 <= v * pct <= 0) by (nonlinear_arith)
                requires v <= 0, 0 <= pct <= 100;
            lemma_round_div_between(v * pct, 100, v as int, 0);
        }
    }
    q as i64
}

/// The displacement, along one axis, of a step of length `r` in a direction
/// whose component on that axis is `d`.
pub fn project(r: i64, d: i64) -> (v: i64)
    requires
        -PROJECT_LIMIT <= r <= PROJECT_LIMIT,
        -0x8000_0000 <= d <= 0x8000_0000,
    ensures
        v == round_div(r * d, DIR_ONE as int),
        -PROJECTED_LIMIT <= v <= PROJECTED_LIMIT,
{
    let q = mul_div_round(r, d, DIR_ONE);
    proof {
        assert(-0x100_0000_0000_0000 * 1_000_000 <= r * d <= 0x100_0000_0000_0000 * 1_000_000)
            by (nonlinear_arith)
            requires
                -0x1000_0000_0000 <= r <= 0x1000_0000_0000,
                -0x8000_0000 <= d <= 0x8000_0000,
        ;
        lemma_round_div_between(
            r * d,
            DIR_ONE as int,
            -0x100_0000_0000_0000,
            0x100_0000_0000_0000,
        );
    }
    q as i64
}

/// The magnitude of `v`.
pub open spec fn magnitude(v: int) -> int {
    if v < 0 {
        -v
    } else {
        v
    }
}

/// A projected length is at most 2148 times the length: a direction's
/// component is under 2148 times [`DIR_ONE`].
pub proof fn lemma_projection_bound(r: int, d: int)
    requires
        -0x8000_0000 <= d <= 0x8000_0000,
    ensures
        magnitude(round_div(r * d, DIR_ONE as int)) <= 2148 * magnitude(r),
{
    let m = magnitude(r);
    assert(-m * 0x8000_0000 <= r * d <= m * 0x8000_0000) by (nonlinear_arith)
        requires
            -0x8000_0000 <= d <= 0x8000_0000,
            m == magnitude(r),
    ;
    assert((-2148 * m) * 1_000_000 <= -m * 0x8000_0000);
    assert(m * 0x8000_0000 <= (2148 * m) * 1_000_000);
    lemma_round_div_between(r * d, DIR_ONE as int, -2148 * m, 2148 * m);
}

} // verus!
