//! Distances from a centre, in millionths of a length unit.

use crate::angle::{scaled, scaled_exec, size, MICRO};
use crate::source::draw_inclusive;
use rand::rngs::StdRng;
use vstd::prelude::*;

verus! {

/// A radius. Its arithmetic is raw and its callers keep it in range.
#[derive(Debug, Copy, Clone, PartialEq, Eq, Structural)]
pub struct Radius {
    pub value: i64,
}

impl Radius {
    /// The radius of the given length.
    pub fn new(value: i64) -> (r: Self)
        ensures
            r.value == value,
    {
        Self { value }
    }

    /// No radius at all.
    pub fn zero() -> (r: Self)
        ensures
            r.value == 0,
    {
        Self { value: 0 }
    }

    /// One length unit.
    pub fn one() -> (r: Self)
        ensures
            r.value == MICRO,
    {
        Self { value: MICRO }
    }

    /// A radius drawn from `low..high`, the upper end left out.
    pub fn new_random(rng: &mut StdRng, low: i64, high: i64) -> (r: Self)
        requires
            low < high,
        ensures
            low <= r.value < high,
    {
        Self { value: draw_inclusive(rng, low, high - 1) }
    }

    /// The square of the radius, in millionths of a square unit, rounded
    /// toward zero.
    pub fn squared(self) -> (sq: i128)
        ensures
            sq == (self.value * self.value) / (MICRO as int),
    {
        assert(0 <= self.value * self.value <= 0x8000_0000_0000_0000 * 0x8000_0000_0000_0000)
            by (nonlinear_arith)
            requires
                -0x8000_0000_0000_0000 <= self.value <= 0x8000_0000_0000_0000,
        ;
        let wide: i128 = self.value as i128;
        let product: u128 = (wide * wide) as u128;
        (product / (MICRO as u128)) as i128
    }

    /// The larger of two radii.
    pub fn max(self, other: Self) -> (r: Self)
        ensures
            r.value >= self.value,
            r.value >= other.value,
            r == self || r == other,
    {
        if self.value >= other.value {
            self
        } else {
            other
        }
    }

    /// The smaller of two radii.
    pub fn min(self, other: Self) -> (r: Self)
        ensures
            r.value <= self.value,
            r.value <= other.value,
            r == self || r == other,
    {
        if self.value <= other.value {
            self
        } else {
            other
        }
    }

    /// Holds the radius between `min` and `max`.
    pub fn clamp(&mut self, min: Self, max: Self)
        requires
            min.value <= max.value,
        ensures
            old(self).value < min.value ==> final(self).value == min.value,
            old(self).value > max.value ==> final(self).value == max.value,
            min.value <= old(self).value <= max.value ==> final(self).value == old(self).value,
    {
        if self.value < min.value {
            self.value = min.value;
        } else if self.value > max.value {
            self.value = max.value;
        }
    }

    /// The sum of two radii.
    pub fn add(self, rhs: Self) -> (r: Self)
        requires
            i64::MIN <= self.value + rhs.value <= i64::MAX,
        ensures
            r.value == self.value + rhs.value,
    {
        Self { value: self.value + rhs.value }
    }

    /// The difference of two radii.
    pub fn sub(self, rhs: Self) -> (r: Self)
        requires
            i64::MIN <= self.value - rhs.value <= i64::MAX,
        ensures
            r.value == self.value - rhs.value,
    {
        Self { value: self.value - rhs.value }
    }

    /// The multiple of the radius by `factor`, in millionths.
    pub fn scale(self, factor: i64) -> (r: Self)
        requires
            size(self.value as int) * size(factor as int) / (MICRO as int) <= i64::MAX,
        ensures
            r.value == scaled(self.value as int, factor as int),
    {
        Self { value: scaled_exec(self.value, factor) }
    }
}

} // verus!
