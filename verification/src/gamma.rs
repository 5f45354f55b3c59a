//! The tests and the formula of the rejection sampler for gamma variates,
//! after Marsaglia and Tsang, in fixed point.
//!
//! The sampler is a dialogue. The host draws a standard normal `x`; the
//! proposal here is rejected or gives `v`. The host then draws a uniform
//! `u` and takes the logarithms of `u` and `v`; the acceptance test here
//! says whether the sample is `gamma_value`, or whether to start again.
//! Ten times the sample is an agent's speed for the next tick.

use crate::angle::{lemma_scaled_bound, scaled, scaled_exec, MICRO};
use crate::components::Speed;
use vstd::prelude::*;

verus! {

/// The constant of the quick acceptance test, 0.0331, in millionths.
pub const SQUEEZE: i64 = 33_100;

/// One half, in millionths.
pub const HALF: i64 = 500_000;

/// The largest normal draw, either way, that the tests take: a hundred.
pub const DRAW_LIMIT: i64 = 100_000_000;

/// The largest shape and logarithm, either way, that the tests take: a
/// thousand.
pub const PARAMETER_LIMIT: i64 = 1_000_000_000;

/// The largest scale that the formula takes: a hundred.
pub const SCALE_LIMIT: i64 = 100_000_000;

/// The largest variate that can arise within the limits.
pub const VARIATE_LIMIT: i64 = 103_030_100_000_000_000;

/// The largest proposal that can arise from draws within the limits.
pub const PROPOSAL_LIMIT: i64 = 1_030_301_000_000;

/// By how much a speed exceeds the gamma variate it is made from.
pub const SPEED_FACTOR: i64 = 10;

/// `1 + c x`, the base of the proposal.
pub open spec fn base_spec(c: int, x: int) -> int {
    MICRO + scaled(c, x)
}

/// The third power of `b`.
pub open spec fn cube_spec(b: int) -> int {
    scaled(scaled(b, b), b)
}

/// Whether the sample is accepted: quickly where `u < 1 - 0.0331 x^4`, and
/// else where `ln u < x^2 / 2 + d (1 - v + ln v)`.
pub open spec fn accepts_spec(d: int, x: int, v: int, u: int, ln_u: int, ln_v: int) -> bool {
    let x2 = scaled(x, x);
    u < MICRO - scaled(SQUEEZE as int, scaled(x2, x2)) || ln_u < scaled(HALF as int, x2) + scaled(
        d,
        MICRO - v + ln_v,
    )
}

/// The sample: `d v theta`.
pub open spec fn value_spec(d: int, v: int, theta: int) -> int {
    scaled(scaled(d, v), theta)
}

/// The proposal `v = (1 + c x)^3` for the normal draw `x`, or nothing
/// where `1 + c x` is not above zero and the draw is rejected at once.
pub fn gamma_proposal(c: i64, x: i64) -> (v: Option<i64>)
    requires
        0 <= c <= MICRO,
        -DRAW_LIMIT <= x <= DRAW_LIMIT,
    ensures
        v is None <==> base_spec(c as int, x as int) <= 0,
        v matches Some(cube) ==> cube == cube_spec(base_spec(c as int, x as int)) && 0 <= cube
            <= PROPOSAL_LIMIT,
{
    proof {
        lemma_scaled_bound(c as int, x as int, MICRO as int, DRAW_LIMIT as int);
    }
    let base: i64 = MICRO + scaled_exec(c, x);
    if base <= 0 {
        return None;
    }
    proof {
        lemma_scaled_bound(base as int, base as int, 101_000_000, 101_000_000);
        lemma_scaled_bound(scaled(base as int, base as int), base as int, 10_201_000_000, 101_000_000);
    }
    let square: i64 = scaled_exec(base, base);
    Some(scaled_exec(square, base))
}

/// Whether the proposal `v` for the normal draw `x` is accepted, given the
/// uniform draw `u` and the logarithms of `u` and of `v`.
pub fn gamma_accepts(d: i64, x: i64, v: i64, u: i64, ln_u: i64, ln_v: i64) -> (accepted: bool)
    requires
        0 <= d <= PARAMETER_LIMIT,
        -DRAW_LIMIT <= x <= DRAW_LIMIT,
        0 <= v <= PROPOSAL_LIMIT,
        -PARAMETER_LIMIT <= ln_v <= PARAMETER_LIMIT,
    ensures
        accepted == accepts_spec(d as int, x as int, v as int, u as int, ln_u as int, ln_v as int),
{
    proof {
        lemma_scaled_bound(x as int, x as int, DRAW_LIMIT as int, DRAW_LIMIT as int);
        let x2 = scaled(x as int, x as int);
        lemma_scaled_bound(x2, x2, 10_000_000_000, 10_000_000_000);
        lemma_scaled_bound(SQUEEZE as int, scaled(x2, x2), SQUEEZE as int, 100_000_000_000_000);
        lemma_scaled_bound(HALF as int, x2, HALF as int, 10_000_000_000);
        lemma_scaled_bound(d as int, MICRO - v + ln_v, PARAMETER_LIMIT as int, 1_031_302_000_000);
    }
    let x2: i64 = scaled_exec(x, x);
    let x4: i64 = scaled_exec(x2, x2);
    let quick: i64 = MICRO - scaled_exec(SQUEEZE, x4);
    if u < quick {
        return true;
    }
    let slow: i64 = scaled_exec(HALF, x2) + scaled_exec(d, MICRO - v + ln_v);
    ln_u < slow
}

/// The gamma variate that an accepted proposal `v` stands for. It is never
/// below zero.
pub fn gamma_value(d: i64, v: i64, theta: i64) -> (value: i64)
    requires
        0 <= d <= PARAMETER_LIMIT,
        0 <= v <= PROPOSAL_LIMIT,
        0 <= theta <= SCALE_LIMIT,
    ensures
        value == value_spec(d as int, v as int, theta as int),
        0 <= value <= VARIATE_LIMIT,
{
    proof {
        lemma_scaled_bound(d as int, v as int, PARAMETER_LIMIT as int, PROPOSAL_LIMIT as int);
        lemma_scaled_bound(
            scaled(d as int, v as int),
            theta as int,
            1_030_301_000_000_000,
            SCALE_LIMIT as int,
        );
    }
    scaled_exec(scaled_exec(d, v), theta)
}

/// The speed for the next tick: ten times a gamma variate, and so never
/// below zero.
pub fn resampled_speed(variate: i64) -> (speed: Speed)
    requires
        0 <= variate <= VARIATE_LIMIT,
    ensures
        speed.0 == variate * SPEED_FACTOR,
        speed.0 >= 0,
{
    Speed::new(variate * SPEED_FACTOR)
}

} // verus!
