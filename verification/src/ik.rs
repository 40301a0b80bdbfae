//! Analytic inverse kinematics for a two-link planar manipulator.
//!
//! The solver turns a target point in the arm's plane into the two
//! elbow-angle solutions of the law of cosines. All lengths are
//! fixed-point micro-meters and all angles micro-degrees. Reachability
//! is decided exactly: the target is solvable precisely when the
//! squared distance lies within the annulus the two links can sweep.
use vstd::arithmetic::div_mod::lemma_div_is_ordered;
use vstd::arithmetic::div_mod::lemma_div_pos_is_pos;
use vstd::prelude::*;

use crate::actuators::POS_LIMIT;
use crate::fixed::div_trunc;
use crate::fixed::div_trunc_i128;
use crate::fixed::lemma_trunc_magnitude_ordered;
use crate::fixed::SCALE;
use crate::trig::atan2_fx;
use crate::trig::atan2_spec;
use crate::trig::isqrt;
use crate::trig::isqrt_spec;
use crate::trig::ATAN2_ARG_MAX;
use crate::trig::DEG180;

verus! {

/// Beyond this coordinate magnitude a target is farther out than any
/// two admissible links can reach.
const REACH_LIMIT: i64 = 2_000_000_000_000;

/// Failure of the solver: the target lies outside the annulus the two
/// links can sweep.
#[derive(Clone, Copy, Debug, PartialEq, Eq, Structural)]
pub enum IkError {
    Unreachable,
}

impl IkError {
    /// The report a caller logs for this failure.
    pub fn message(&self) -> (m: &'static str)
        ensures
            m@ == "No solution: unreachable position."@,
    {
        "No solution: unreachable position."
    }
}

/// Numerator of the elbow cosine, scaled by `2 * l1 * l2`: the squared
/// target distance less both squared link lengths.
pub open spec fn ik_cos_num(x: int, y: int, l1: int, l2: int) -> int {
    x * x + y * y - l1 * l1 - l2 * l2
}

/// Denominator of the elbow cosine.
pub open spec fn ik_cos_den(l1: int, l2: int) -> int {
    2 * l1 * l2
}

/// Whether the target is reachable: the elbow cosine lies in `[-1, 1]`.
pub open spec fn ik_reachable(x: int, y: int, l1: int, l2: int) -> bool {
    -ik_cos_den(l1, l2) <= ik_cos_num(x, y, l1, l2) <= ik_cos_den(l1, l2)
}

/// Both solutions for a reachable target, each a pair of shoulder and
/// elbow angles in micro-degrees: the cosine's numerator and
/// denominator are rescaled to the fixed-point grain, the elbow sine
/// comes from an integer square root, and the angles from the
/// fixed-point arctangent. The first solution carries the non-negative
/// (elbow-down) elbow angle, the second its negation.
pub open spec fn ik_solutions(x: int, y: int, l1: int, l2: int) -> ((i64, i64), (i64, i64)) {
    let num = ik_cos_num(x, y, l1, l2);
    let den = ik_cos_den(l1, l2);
    let num_r = div_trunc(num, SCALE as int);
    let den_r = den / (SCALE as int);
    let sin_r = isqrt_spec((den_r * den_r - num_r * num_r) as nat) as int;
    let phi = atan2_spec(y, x);
    let theta2 = atan2_spec(sin_r, num_r);
    let k1 = l1 * den_r + l2 * num_r;
    let k2 = l2 * sin_r;
    let theta1a = phi - atan2_spec(k2, k1);
    let theta1b = phi - atan2_spec(-k2, k1);
    ((theta1a as i64, theta2 as i64), (theta1b as i64, (-theta2) as i64))
}

/// Inverse kinematics of a two-link planar arm with link lengths `l1`
/// and `l2`, for the in-plane target `(x, y)`. Fails exactly when the
/// elbow cosine falls outside `[-1, 1]`; otherwise returns the
/// elbow-down and elbow-up solutions, in that order.
pub fn ikcalc_2rmanip(x: i64, y: i64, l1: i64, l2: i64) -> (r: Result<
    ((i64, i64), (i64, i64)),
    IkError,
>)
    requires
        0 < l1 <= POS_LIMIT,
        0 < l2 <= POS_LIMIT,
    ensures
        ik_reachable(x as int, y as int, l1 as int, l2 as int) ==> r == Ok::<
            ((i64, i64), (i64, i64)),
            IkError,
        >(ik_solutions(x as int, y as int, l1 as int, l2 as int)),
        !ik_reachable(x as int, y as int, l1 as int, l2 as int) ==> r == Err::<
            ((i64, i64), (i64, i64)),
            IkError,
        >(IkError::Unreachable),
{
    if x > REACH_LIMIT || x < -REACH_LIMIT || y > REACH_LIMIT || y < -REACH_LIMIT {
        proof {
            assert(ik_cos_num(x as int, y as int, l1 as int, l2 as int) > ik_cos_den(
                l1 as int,
                l2 as int,
            )) by (nonlinear_arith)
                requires
                    0 < l1 <= 1_000_000_000_000i64,
                    0 < l2 <= 1_000_000_000_000i64,
                    x > 2_000_000_000_000i64 || x < -2_000_000_000_000i64 || y
                        > 2_000_000_000_000i64 || y < -2_000_000_000_000i64,
            ;
        }
        return Err(IkError::Unreachable);
    }
    let xi = x as i128;
    let yi = y as i128;
    let a1 = l1 as i128;
    let a2 = l2 as i128;
    proof {
        assert(0 <= xi * xi <= 4_000_000_000_000_000_000_000_000int && 0 <= yi * yi
            <= 4_000_000_000_000_000_000_000_000int && 0 <= a1 * a1
            <= 1_000_000_000_000_000_000_000_000int && 0 <= a2 * a2
            <= 1_000_000_000_000_000_000_000_000int && 0 < 2 * a1 * a2
            <= 2_000_000_000_000_000_000_000_000int) by (nonlinear_arith)
            requires
                -2_000_000_000_000 <= xi <= 2_000_000_000_000,
                -2_000_000_000_000 <= yi <= 2_000_000_000_000,
                0 < a1 <= 1_000_000_000_000,
                0 < a2 <= 1_000_000_000_000,
        ;
    }
    let rr: i128 = xi * xi + yi * yi;
    let num: i128 = rr - a1 * a1 - a2 * a2;
    let den: i128 = 2 * a1 * a2;
    proof {
        assert(num as int == ik_cos_num(x as int, y as int, l1 as int, l2 as int));
        assert(den as int == ik_cos_den(l1 as int, l2 as int));
    }
    if num > den || num < -den {
        return Err(IkError::Unreachable);
    }
    let num_r: i128 = div_trunc_i128(num, SCALE as i128);
    let den_r: i128 = div_trunc_i128(den, SCALE as i128);
    proof {
        lemma_trunc_magnitude_ordered(num as int, den as int, SCALE as int);
        lemma_div_pos_is_pos(den as int, SCALE as int);
        lemma_div_is_ordered(den as int, 2_000_000_000_000_000_000_000_000int, SCALE as int);
        assert(den_r as int == (den as int) / (SCALE as int));
        assert(0 <= den_r <= 2_000_000_000_000_000_000int);
        assert(-den_r <= num_r <= den_r);
        assert(0 <= den_r * den_r <= 4_000_000_000_000_000_000_000_000_000_000_000_000int && 0
            <= num_r * num_r <= den_r * den_r) by (nonlinear_arith)
            requires
                0 <= den_r <= 2_000_000_000_000_000_000int,
                -den_r <= num_r <= den_r,
        ;
    }
    let s2: i128 = den_r * den_r - num_r * num_r;
    let root: u64 = isqrt(s2 as u128);
    let sin_r: i128 = root as i128;
    proof {
        assert(sin_r <= den_r) by (nonlinear_arith)
            requires
                0 <= sin_r,
                0 <= den_r,
                sin_r * sin_r <= den_r * den_r,
        ;
        assert(0 <= a2 * sin_r <= 2_000_000_000_000_000_000_000_000_000_000int && 0 <= a1 * den_r
            <= 2_000_000_000_000_000_000_000_000_000_000int && -(
        2_000_000_000_000_000_000_000_000_000_000int) <= a2 * num_r
            <= 2_000_000_000_000_000_000_000_000_000_000int) by (nonlinear_arith)
            requires
                0 < a1 <= 1_000_000_000_000,
                0 < a2 <= 1_000_000_000_000,
                0 <= sin_r <= den_r <= 2_000_000_000_000_000_000int,
                -den_r <= num_r <= den_r,
        ;
    }
    let phi: i64 = atan2_fx(yi, xi);
    let theta2: i64 = atan2_fx(sin_r, num_r);
    let k1: i128 = a1 * den_r + a2 * num_r;
    let k2: i128 = a2 * sin_r;
    let psi_a: i64 = atan2_fx(k2, k1);
    let psi_b: i64 = atan2_fx(-k2, k1);
    let theta1a: i64 = phi - psi_a;
    let theta1b: i64 = phi - psi_b;
    Ok(((theta1a, theta2), (theta1b, -theta2)))
}

/// The fixed first-solution policy, stated of the solutions
/// themselves: the first pair carries the elbow-down branch, a
/// non-negative elbow angle of at most a half turn, and the second
/// pair its exact negation (elbow-up). A design decision, not a
/// computed optimum.
pub proof fn lemma_first_solution_is_elbow_down(x: int, y: int, l1: int, l2: int)
    requires
        0 < l1,
        0 < l2,
    ensures
        0 <= ik_solutions(x, y, l1, l2).0.1 <= DEG180,
        ik_solutions(x, y, l1, l2).1.1 == -ik_solutions(x, y, l1, l2).0.1,
{
    let num = ik_cos_num(x, y, l1, l2);
    let den = ik_cos_den(l1, l2);
    let num_r = div_trunc(num, SCALE as int);
    let den_r = den / (SCALE as int);
    let sin_r = isqrt_spec((den_r * den_r - num_r * num_r) as nat) as int;
    let theta2 = atan2_spec(sin_r, num_r);
    crate::trig::lemma_atan2_upper_range(sin_r, num_r);
    assert(0 <= theta2 <= DEG180 as int);
}

} // verus!
