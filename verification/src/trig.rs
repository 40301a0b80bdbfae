//! Integer square root and a fixed-point planar arctangent.
//!
//! Angles are `i64` micro-degrees. `atan2_fx` reduces its arguments to
//! the first octant, where a quadratic approximation of the arctangent
//! is exact at both octant ends, so directions on the eighth-turn
//! boundaries (0, 45, 90, ... degrees) come out exactly.
use vstd::arithmetic::div_mod::lemma_div_is_ordered;
use vstd::arithmetic::div_mod::lemma_div_multiples_vanish;
use vstd::arithmetic::div_mod::lemma_div_pos_is_pos;
use vstd::prelude::*;

use crate::fixed::div_trunc;
use crate::fixed::div_trunc_i128;
use crate::fixed::SCALE;

verus! {

/// An eighth turn, in micro-degrees.
pub const DEG45: i64 = 45_000_000;

/// A quarter turn, in micro-degrees.
pub const DEG90: i64 = 90_000_000;

/// A half turn, in micro-degrees.
pub const DEG180: i64 = 180_000_000;

/// Quadratic correction coefficient of the octant arctangent
/// approximation: 0.273 rad, in micro-degrees.
pub const ATAN_CORR: i64 = 15_641_747;

/// Largest argument magnitude `atan2_fx` accepts; wide enough for any
/// product this crate forms, while `y * SCALE` still fits in `i128`.
pub const ATAN2_ARG_MAX: i128 = 100_000_000_000_000_000_000_000_000_000_000;

/// The integer square root, defined by counting up.
pub open spec fn isqrt_spec(n: nat) -> nat
    decreases n,
{
    if n == 0 {
        0
    } else {
        let r = isqrt_spec((n - 1) as nat);
        if (r + 1) * (r + 1) <= n {
            r + 1
        } else {
            r
        }
    }
}

/// The integer square root brackets its argument between consecutive
/// squares.
pub proof fn lemma_isqrt_bracket(n: nat)
    ensures
        isqrt_spec(n) * isqrt_spec(n) <= n,
        n < (isqrt_spec(n) + 1) * (isqrt_spec(n) + 1),
    decreases n,
{
    if n == 0 {
        assert(isqrt_spec(n) == 0);
        assert((isqrt_spec(n) + 1) * (isqrt_spec(n) + 1) == 1) by (nonlinear_arith)
            requires
                isqrt_spec(n) == 0,
        ;
    } else {
        let m = (n - 1) as nat;
        let r = isqrt_spec(m);
        lemma_isqrt_bracket(m);
        assert(r * r <= m);
        assert(m < (r + 1) * (r + 1));
        if (r + 1) * (r + 1) <= n {
            assert(isqrt_spec(n) == r + 1);
            assert(n == (r + 1) * (r + 1));
            assert((r + 1) * (r + 1) < (r + 2) * (r + 2)) by (nonlinear_arith);
            assert(isqrt_spec(n) * isqrt_spec(n) <= n);
            assert(n < (isqrt_spec(n) + 1) * (isqrt_spec(n) + 1));
        } else {
            assert(isqrt_spec(n) == r);
            assert(isqrt_spec(n) * isqrt_spec(n) <= n);
            assert(n < (isqrt_spec(n) + 1) * (isqrt_spec(n) + 1));
        }
    }
}

/// Any value bracketed between consecutive squares is the integer
/// square root.
pub proof fn lemma_isqrt_unique(n: nat, r: nat)
    requires
        r * r <= n,
        n < (r + 1) * (r + 1),
    ensures
        r == isqrt_spec(n),
{
    let s = isqrt_spec(n);
    lemma_isqrt_bracket(n);
    if r < s {
        assert((r + 1) * (r + 1) <= s * s) by (nonlinear_arith)
            requires
                r + 1 <= s,
        ;
    }
    if s < r {
        assert((s + 1) * (s + 1) <= r * r) by (nonlinear_arith)
            requires
                s + 1 <= r,
        ;
    }
}

/// Binary-search integer square root.
pub fn isqrt(n: u128) -> (r: u64)
    requires
        n < 0x4000_0000_0000_0000_0000_0000_0000_0000,
    ensures
        r as nat == isqrt_spec(n as nat),
        (r as int) * (r as int) <= n as int,
        (n as int) < (r as int + 1) * (r as int + 1),
{
    let mut lo: u128 = 0;
    let mut hi: u128 = 0x8000_0000_0000_0000;
    proof {
        assert((hi as int + 1) * (hi as int + 1) > n as int) by (nonlinear_arith)
            requires
                hi == 0x8000_0000_0000_0000u128,
                n < 0x4000_0000_0000_0000_0000_0000_0000_0000u128,
        ;
    }
    while lo < hi
        invariant
            lo <= hi <= 0x8000_0000_0000_0000u128,
            (lo as int) * (lo as int) <= n as int,
            (n as int) < (hi as int + 1) * (hi as int + 1),
        decreases hi - lo,
    {
        let mid: u128 = lo + (hi - lo + 1) / 2;
        proof {
            assert((mid as int) * (mid as int) <= 0x4000_0000_0000_0000_0000_0000_0000_0000int)
                by (nonlinear_arith)
                requires
                    0 <= mid <= 0x8000_0000_0000_0000u128,
            ;
        }
        if mid * mid <= n {
            lo = mid;
        } else {
            hi = mid - 1;
        }
    }
    proof {
        lemma_isqrt_unique(n as nat, lo as nat);
    }
    lo as u64
}

/// Arctangent within the first octant: the argument is a slope in
/// `[0, 1]` carried as `SCALE` ticks, the result is in micro-degrees.
/// A quadratic correction rides on the 45-degrees-per-unit line; it
/// vanishes at both ends, so a slope of exactly 0 or 1 maps to exactly
/// 0 or 45 degrees.
pub open spec fn atan_octant_spec(t: int) -> int {
    ((DEG45 as int) * t + ((ATAN_CORR as int) * t * ((SCALE as int) - t)) / (SCALE as int)) / (
    SCALE as int)
}

/// The octant arctangent stays within its octant.
pub proof fn lemma_atan_octant_range(t: int)
    requires
        0 <= t <= SCALE as int,
    ensures
        0 <= atan_octant_spec(t) <= DEG45 as int,
{
    let s = SCALE as int;
    let a = ATAN_CORR as int;
    let d = DEG45 as int;
    let c = a * t * (s - t);
    assert(0 <= c && c <= s * (d * (s - t))) by (nonlinear_arith)
        requires
            0 <= t <= s,
            0 < a < d,
            c == a * t * (s - t),
    ;
    lemma_div_pos_is_pos(c, s);
    lemma_div_is_ordered(c, s * (d * (s - t)), s);
    lemma_div_multiples_vanish(d * (s - t), s);
    assert(0 <= d * t + c / s <= s * d) by (nonlinear_arith)
        requires
            0 <= t <= s,
            0 <= c / s <= d * (s - t),
            0 < d,
    ;
    lemma_div_pos_is_pos(d * t + c / s, s);
    lemma_div_is_ordered(d * t + c / s, s * d, s);
    lemma_div_multiples_vanish(d, s);
}

/// A slope quotient lands in the first octant: for `0 <= a <= b`,
/// `a * SCALE / b` lies in `[0, SCALE]`.
pub proof fn lemma_slope_in_octant(a: int, b: int)
    requires
        0 <= a <= b,
        0 < b,
    ensures
        0 <= (a * (SCALE as int)) / b <= SCALE as int,
{
    let s = SCALE as int;
    assert(0 <= a * s <= b * s) by (nonlinear_arith)
        requires
            0 <= a <= b,
            0 < s,
    ;
    lemma_div_pos_is_pos(a * s, b);
    lemma_div_is_ordered(a * s, b * s, b);
    lemma_div_multiples_vanish(s, b);
}

/// Planar arctangent for a non-negative ordinate, by octant reduction.
pub open spec fn atan2_upper_spec(y: int, x: int) -> int {
    if x > 0 && y <= x {
        atan_octant_spec((y * (SCALE as int)) / x)
    } else if x > 0 {
        (DEG90 as int) - atan_octant_spec((x * (SCALE as int)) / y)
    } else if x == 0 {
        if y == 0 {
            0
        } else {
            DEG90 as int
        }
    } else if y < -x {
        (DEG180 as int) - atan_octant_spec((y * (SCALE as int)) / (-x))
    } else {
        (DEG90 as int) + atan_octant_spec(((-x) * (SCALE as int)) / y)
    }
}

/// Planar arctangent of `y` over `x`, in micro-degrees, odd in `y`.
/// The origin maps to 0, and a negative abscissa with a tiny negative
/// ordinate maps to minus a half turn, so the result spans the closed
/// range `[-180, 180]` degrees.
pub open spec fn atan2_spec(y: int, x: int) -> int {
    if y >= 0 {
        atan2_upper_spec(y, x)
    } else {
        -atan2_upper_spec(-y, x)
    }
}

fn atan2_upper(y: i128, x: i128) -> (r: i64)
    requires
        0 <= y <= ATAN2_ARG_MAX,
        -ATAN2_ARG_MAX <= x <= ATAN2_ARG_MAX,
    ensures
        r as int == atan2_upper_spec(y as int, x as int),
        0 <= r <= DEG180,
{
    if x > 0 && y <= x {
        let t = slope_scaled(y, x);
        atan_octant(t)
    } else if x > 0 {
        let t = slope_scaled(x, y);
        DEG90 - atan_octant(t)
    } else if x == 0 {
        if y == 0 {
            0
        } else {
            DEG90
        }
    } else {
        let neg: i128 = -x;
        if y < neg {
            let t = slope_scaled(y, neg);
            DEG180 - atan_octant(t)
        } else {
            let t = slope_scaled(neg, y);
            DEG90 + atan_octant(t)
        }
    }
}

/// Planar arctangent of `y` over `x`, in micro-degrees.
pub fn atan2_fx(y: i128, x: i128) -> (r: i64)
    requires
        -ATAN2_ARG_MAX <= y <= ATAN2_ARG_MAX,
        -ATAN2_ARG_MAX <= x <= ATAN2_ARG_MAX,
    ensures
        r as int == atan2_spec(y as int, x as int),
        -DEG180 <= r <= DEG180,
{
    if y >= 0 {
        atan2_upper(y, x)
    } else {
        let u = atan2_upper(-y, x);
        -u
    }
}

/// The slope `a / b` in `[0, 1]`, carried as `SCALE` ticks.
fn slope_scaled(a: i128, b: i128) -> (t: i64)
    requires
        0 <= a <= b,
        0 < b,
        a <= ATAN2_ARG_MAX,
    ensures
        t as int == ((a as int) * (SCALE as int)) / (b as int),
        0 <= t <= SCALE,
{
    let p: i128 = a * (SCALE as i128);
    let q = div_trunc_i128(p, b);
    proof {
        lemma_slope_in_octant(a as int, b as int);
    }
    q as i64
}

/// The octant arctangent, executable form.
fn atan_octant(t: i64) -> (r: i64)
    requires
        0 <= t <= SCALE,
    ensures
        r as int == atan_octant_spec(t as int),
        0 <= r <= DEG45,
{
    let tt = t as u128;
    let su = SCALE as u128;
    proof {
        assert(((ATAN_CORR as int) * (tt as int)) * ((su as int) - (tt as int))
            <= 0x1_0000_0000_0000_0000_0000int) by (nonlinear_arith)
            requires
                0 <= tt <= 1_000_000,
                su == 1_000_000,
                ATAN_CORR == 15_641_747,
        ;
    }
    let corr: u128 = ((ATAN_CORR as u128) * tt) * (su - tt);
    let inner: u128 = corr / su;
    proof {
        assert((DEG45 as u128) == 45_000_000u128);
        assert(inner <= corr);
        assert((DEG45 as u128) * tt <= 45_000_000_000_000u128) by (nonlinear_arith)
            requires
                (DEG45 as u128) == 45_000_000u128,
                tt <= 1_000_000,
        ;
    }
    let num: u128 = (DEG45 as u128) * tt + inner;
    let q: u128 = num / su;
    proof {
        lemma_atan_octant_range(t as int);
        assert(q as int == atan_octant_spec(t as int));
    }
    q as i64
}

/// For a non-negative ordinate the planar arctangent lands in the
/// upper half turn.
pub proof fn lemma_atan2_upper_range(y: int, x: int)
    requires
        y >= 0,
    ensures
        0 <= atan2_upper_spec(y, x) <= DEG180 as int,
{
    let s = SCALE as int;
    if x > 0 && y <= x {
        lemma_slope_in_octant(y, x);
        lemma_atan_octant_range((y * s) / x);
    } else if x > 0 {
        lemma_slope_in_octant(x, y);
        lemma_atan_octant_range((x * s) / y);
    } else if x == 0 {
    } else if y < -x {
        lemma_slope_in_octant(y, -x);
        lemma_atan_octant_range((y * s) / (-x));
    } else {
        lemma_slope_in_octant(-x, y);
        lemma_atan_octant_range(((-x) * s) / y);
    }
}

} // verus!
