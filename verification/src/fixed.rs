//! Saturating fixed-point arithmetic on `i64` micro-units.
//!
//! Every physical quantity of the simulation (meters, degrees, seconds)
//! is carried as an `i64` holding `SCALE` ticks per unit. The operations
//! here saturate at the `i64` range instead of overflowing, and each one
//! has an exact integer specification, so the control-law code built on
//! top of them is total: no input can make it panic.
use vstd::arithmetic::div_mod::lemma_div_is_ordered;
use vstd::arithmetic::div_mod::lemma_div_multiples_vanish;
use vstd::arithmetic::div_mod::lemma_div_pos_is_pos;
use vstd::math::abs;
use vstd::prelude::*;

verus! {

/// Number of fixed-point ticks in one natural unit (one meter, one
/// degree, or one second).
pub const SCALE: i64 = 1_000_000;

/// Saturation of a mathematical integer into the `i64` range.
pub open spec fn clip(v: int) -> int {
    if v > i64::MAX as int {
        i64::MAX as int
    } else if v < i64::MIN as int {
        i64::MIN as int
    } else {
        v
    }
}

/// Division rounding toward zero; meaningful for positive divisors.
pub open spec fn div_trunc(a: int, b: int) -> int {
    if a >= 0 {
        a / b
    } else {
        -((-a) / b)
    }
}

/// Saturating sum.
pub open spec fn fx_add_spec(a: int, b: int) -> int {
    clip(a + b)
}

/// Saturating difference.
pub open spec fn fx_sub_spec(a: int, b: int) -> int {
    clip(a - b)
}

/// Saturating fixed-point product: `a * b` rescaled back by `SCALE`,
/// rounding toward zero.
pub open spec fn fx_mul_spec(a: int, b: int) -> int {
    clip(div_trunc(a * b, SCALE as int))
}

/// Saturating fixed-point quotient: `a / b` carried to `SCALE` ticks,
/// rounding toward zero; meaningful for positive divisors.
pub open spec fn fx_div_spec(a: int, b: int) -> int {
    clip(div_trunc(a * (SCALE as int), b))
}

/// Clamp of `v` into `[lo, hi]`, the upper bound winning when the two
/// bounds coincide.
pub open spec fn clamp_spec(v: int, lo: int, hi: int) -> int {
    if v >= hi {
        hi
    } else if v <= lo {
        lo
    } else {
        v
    }
}

/// Scaling by a factor of at most one — `k` ticks out of `d` — never
/// grows a value's magnitude under truncating division.
pub proof fn lemma_div_trunc_scaled_le(a: int, k: int, d: int)
    requires
        0 <= k <= d,
        0 < d,
    ensures
        abs(div_trunc(k * a, d)) <= abs(a),
{
    if a >= 0 {
        lemma_scaled_quotient_le(a, k, d);
    } else {
        assert(k * a == -(k * (-a))) by (nonlinear_arith);
        lemma_scaled_quotient_le(-a, k, d);
    }
}

proof fn lemma_scaled_quotient_le(a: int, k: int, d: int)
    requires
        a >= 0,
        0 <= k <= d,
        0 < d,
    ensures
        0 <= (k * a) / d <= a,
{
    assert(0 <= k * a <= d * a) by (nonlinear_arith)
        requires
            a >= 0,
            0 <= k <= d,
    ;
    lemma_div_pos_is_pos(k * a, d);
    lemma_div_is_ordered(k * a, d * a, d);
    lemma_div_multiples_vanish(a, d);
}

/// Truncating division by a positive divisor keeps a magnitude bound
/// through rescaling.
pub proof fn lemma_trunc_magnitude_ordered(a: int, b: int, d: int)
    requires
        -b <= a <= b,
        0 <= b,
        0 < d,
    ensures
        -(b / d) <= div_trunc(a, d) <= b / d,
{
    if a >= 0 {
        lemma_div_pos_is_pos(a, d);
        lemma_div_is_ordered(a, b, d);
    } else {
        lemma_div_pos_is_pos(-a, d);
        lemma_div_is_ordered(-a, b, d);
        lemma_div_pos_is_pos(b, d);
    }
}

/// Saturation of a wide intermediate value back into `i64`.
pub fn clip_to_i64(v: i128) -> (r: i64)
    ensures
        r as int == clip(v as int),
{
    if v > i64::MAX as i128 {
        i64::MAX
    } else if v < i64::MIN as i128 {
        i64::MIN
    } else {
        v as i64
    }
}

/// Truncating division of a wide intermediate value by a positive
/// divisor. The dividend must not be the very smallest `i128`, so that
/// its negation exists.
pub fn div_trunc_i128(a: i128, b: i128) -> (r: i128)
    requires
        b > 0,
        a > i128::MIN,
    ensures
        r as int == div_trunc(a as int, b as int),
{
    if a >= 0 {
        let q: u128 = (a as u128) / (b as u128);
        proof {
            assert(q <= a as u128) by (nonlinear_arith)
                requires
                    b >= 1,
                    q == (a as u128) / (b as u128),
            ;
        }
        q as i128
    } else {
        let n: u128 = (-a) as u128;
        let q: u128 = n / (b as u128);
        proof {
            assert(q <= n) by (nonlinear_arith)
                requires
                    b >= 1,
                    q == n / (b as u128),
            ;
        }
        -(q as i128)
    }
}

/// Saturating sum of two fixed-point values.
pub fn fx_add(a: i64, b: i64) -> (r: i64)
    ensures
        r as int == fx_add_spec(a as int, b as int),
{
    clip_to_i64(a as i128 + b as i128)
}

/// Saturating difference of two fixed-point values.
pub fn fx_sub(a: i64, b: i64) -> (r: i64)
    ensures
        r as int == fx_sub_spec(a as int, b as int),
{
    clip_to_i64(a as i128 - b as i128)
}

/// Saturating fixed-point product.
pub fn fx_mul(a: i64, b: i64) -> (r: i64)
    ensures
        r as int == fx_mul_spec(a as int, b as int),
{
    proof {
        assert((a as int) * (b as int) < i128::MAX && (a as int) * (b as int) > i128::MIN)
            by (nonlinear_arith)
            requires
                i64::MIN <= a <= i64::MAX,
                i64::MIN <= b <= i64::MAX,
        ;
    }
    let p: i128 = (a as i128) * (b as i128);
    clip_to_i64(div_trunc_i128(p, SCALE as i128))
}

/// Saturating fixed-point quotient by a positive divisor.
pub fn fx_div(a: i64, b: i64) -> (r: i64)
    requires
        b > 0,
    ensures
        r as int == fx_div_spec(a as int, b as int),
{
    proof {
        assert((a as int) * (SCALE as int) < i128::MAX && (a as int) * (SCALE as int)
            > i128::MIN) by (nonlinear_arith)
            requires
                i64::MIN <= a <= i64::MAX,
                0 < SCALE <= 1_000_000,
        ;
    }
    let p: i128 = (a as i128) * (SCALE as i128);
    clip_to_i64(div_trunc_i128(p, b as i128))
}

/// Clamp of a fixed-point value into `[lo, hi]`.
pub fn clamp_i64(v: i64, lo: i64, hi: i64) -> (r: i64)
    requires
        lo <= hi,
    ensures
        r as int == clamp_spec(v as int, lo as int, hi as int),
{
    if v >= hi {
        hi
    } else if v <= lo {
        lo
    } else {
        v
    }
}

} // verus!
