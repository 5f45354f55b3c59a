//! The random source: the generator of the `rand` crate, reached through
//! two calls whose contracts are taken on trust.

use rand::rngs::StdRng;
use rand::Rng;
use vstd::prelude::*;

verus! {

/// The denominator of every chance.
pub const MILLION: u32 = 1_000_000;

/// The standard generator of `rand`. Its state is opaque here.
#[verifier::external_type_specification]
#[verifier::external_body]
pub struct ExStdRng(StdRng);

/// Calls `Rng::random_range` on the half-open range `low..high`.
///
/// Trusted: the value returned lies in the range. `rand` panics on an empty
/// range, which the precondition excludes. Nothing is claimed of how the
/// values are distributed, nor of the generator's state afterwards.
#[verifier::external_body]
pub(crate) fn draw_between(rng: &mut StdRng, low: u128, high: u128) -> (r: u128)
    requires
        low < high,
    ensures
        low <= r < high,
{
    rng.random_range(low..high)
}

/// Calls `Rng::random_ratio`, a trial that succeeds with the chance
/// `numerator / denominator`.
///
/// Trusted: with a zero numerator the trial fails, and with the numerator
/// equal to the denominator it succeeds, as `rand` documents. `rand` panics
/// on a zero denominator and on a ratio above one, which the precondition
/// excludes.
#[verifier::external_body]
pub(crate) fn draw_ratio(rng: &mut StdRng, numerator: u32, denominator: u32) -> (r: bool)
    requires
        denominator > 0,
        numerator <= denominator,
    ensures
        numerator == 0 ==> !r,
        numerator == denominator ==> r,
{
    rng.random_ratio(numerator, denominator)
}

/// A whole number drawn from `low` to `high`, both ends included.
pub fn draw_inclusive(rng: &mut StdRng, low: i64, high: i64) -> (r: i64)
    requires
        low <= high,
    ensures
        low <= r <= high,
{
    let span: u128 = (high as i128 - low as i128 + 1) as u128;
    let step: u128 = draw_between(rng, 0, span);
    (low as i128 + step as i128) as i64
}

/// One trial that succeeds with the chance of `per_million` in a million.
pub fn trial(rng: &mut StdRng, per_million: u32) -> (hit: bool)
    requires
        per_million <= MILLION,
    ensures
        per_million == 0 ==> !hit,
        per_million == MILLION ==> hit,
{
    draw_ratio(rng, per_million, MILLION)
}

} // verus!
