//! What the host stores for each agent, and the settings it hands in.
//! Lengths and speeds are in millionths of a unit.

use crate::angle::{blend, lemma_lerp_between, portion_exec, MICRO};
use crate::source::draw_inclusive;
use rand::rngs::StdRng;
use vstd::prelude::*;

verus! {

/// The settings that the host reads at start-up.
#[derive(Debug, Copy, Clone, PartialEq, Eq, Structural)]
pub struct Config {
    /// Width of the area, in whole length units.
    pub width: u32,
    /// Height of the area, in whole length units.
    pub height: u32,
    /// Chance per tick, in millionths, that an idle agent turns.
    pub chance_to_change_direction: u32,
    /// Chance per tick, in millionths, that an idle agent changes speed.
    pub chance_to_change_speed: u32,
    /// Chance per tick, in millionths, that an idle agent's stress shifts.
    pub chance_to_change_stress: u32,
}

/// The rectangle in which the agents live.
#[derive(Debug, Copy, Clone, PartialEq, Eq, Structural)]
pub struct Area {
    pub width: i64,
    pub height: i64,
}

impl Area {
    /// The area of the given extent.
    pub fn new(width: i64, height: i64) -> (area: Self)
        ensures
            area.width == width,
            area.height == height,
    {
        Self { width, height }
    }

    /// The area that the settings describe.
    pub fn from_config(config: &Config) -> (area: Self)
        ensures
            area.width == config.width * MICRO,
            area.height == config.height * MICRO,
    {
        Self::new(config.width as i64 * MICRO, config.height as i64 * MICRO)
    }
}

/// The chances, in millionths, of the three idle changes.
#[derive(Debug, Copy, Clone, PartialEq, Eq, Structural)]
pub struct Idle {
    pub chance_to_change_direction: u32,
    pub chance_to_change_speed: u32,
    pub chance_to_change_stress: u32,
}

impl Default for Idle {
    /// One tick in ten turns an agent, one in twenty changes its speed, one
    /// in a thousand shifts its stress.
    fn default() -> (idle: Self)
        ensures
            idle.chance_to_change_direction == 100_000,
            idle.chance_to_change_speed == 50_000,
            idle.chance_to_change_stress == 1_000,
    {
        Self {
            chance_to_change_direction: 100_000,
            chance_to_change_speed: 50_000,
            chance_to_change_stress: 1_000,
        }
    }
}

impl Idle {
    /// Whether each chance is at most one.
    pub open spec fn wf(&self) -> bool {
        &&& self.chance_to_change_direction <= MICRO
        &&& self.chance_to_change_speed <= MICRO
        &&& self.chance_to_change_stress <= MICRO
    }

    /// Takes the chances over from the settings.
    pub fn update(&mut self, config: &Config)
        ensures
            final(self).chance_to_change_direction == config.chance_to_change_direction,
            final(self).chance_to_change_speed == config.chance_to_change_speed,
            final(self).chance_to_change_stress == config.chance_to_change_stress,
    {
        self.chance_to_change_direction = config.chance_to_change_direction;
        self.chance_to_change_speed = config.chance_to_change_speed;
        self.chance_to_change_stress = config.chance_to_change_stress;
    }
}

/// Where an agent is.
#[derive(Debug, Copy, Clone, PartialEq, Eq, Structural)]
pub struct Position {
    pub x: i64,
    pub y: i64,
}

impl Position {
    /// The given point.
    pub fn new(x: i64, y: i64) -> (p: Self)
        ensures
            p.x == x,
            p.y == y,
    {
        Self { x, y }
    }

    /// The origin.
    pub fn new_zero() -> (p: Self)
        ensures
            p.x == 0,
            p.y == 0,
    {
        Self::new(0, 0)
    }

    /// A point drawn from the rectangle with the given bounds, which belong to it.
    pub fn new_random(rng: &mut StdRng, x_low: i64, x_high: i64, y_low: i64, y_high: i64) -> (p: Self)
        requires
            x_low <= x_high,
            y_low <= y_high,
        ensures
            x_low <= p.x <= x_high,
            y_low <= p.y <= y_high,
    {
        let x: i64 = draw_inclusive(rng, x_low, x_high);
        let y: i64 = draw_inclusive(rng, y_low, y_high);
        Self::new(x, y)
    }
}

/// How fast an agent swims.
#[derive(Debug, Copy, Clone, PartialEq, Eq, Structural)]
pub struct Speed(pub i64);

impl Speed {
    /// The given speed.
    pub fn new(speed: i64) -> (s: Self)
        ensures
            s.0 == speed,
    {
        Self(speed)
    }

    /// Standing still.
    pub fn new_zero() -> (s: Self)
        ensures
            s.0 == 0,
    {
        Self::new(0)
    }

    /// A speed drawn from `low` to `high`, both included.
    pub fn new_random(rng: &mut StdRng, low: i64, high: i64) -> (s: Self)
        requires
            low <= high,
        ensures
            low <= s.0 <= high,
    {
        Self::new(draw_inclusive(rng, low, high))
    }

    /// Moves the speed toward `to` by the fraction `factor`, in millionths.
    pub fn lerp(&mut self, to: &Self, factor: i64)
        requires
            0 <= factor <= MICRO,
        ensures
            final(self).0 == blend(old(self).0 as int, to.0 as int, factor as int),
            old(self).0 <= to.0 ==> old(self).0 <= final(self).0 <= to.0,
            to.0 <= old(self).0 ==> to.0 <= final(self).0 <= old(self).0,
    {
        proof {
            lemma_lerp_between(self.0 as int, to.0 as int, factor as int);
        }
        let step: i128 = portion_exec(to.0 as i128 - self.0 as i128, factor);
        self.0 = (self.0 as i128 + step) as i64;
    }
}

/// How stressed an agent is. The value changes by interpolation only.
#[derive(Debug, Copy, Clone, PartialEq, Eq, Structural)]
pub struct Stress(i64);

impl Default for Stress {
    /// The calmest an agent usually is: a tenth.
    fn default() -> (s: Self)
        ensures
            s.value() == 100_000,
    {
        Self(100_000)
    }
}

impl Stress {
    /// The stress factor, in millionths.
    pub closed spec fn value(&self) -> int {
        self.0 as int
    }

    /// The stress of the given factor.
    pub fn new(factor: i64) -> (s: Self)
        ensures
            s.value() == factor,
    {
        Self(factor)
    }

    /// A stress drawn from a tenth up to, and without, a half.
    pub fn new_random(rng: &mut StdRng) -> (s: Self)
        ensures
            100_000 <= s.value() < 500_000,
    {
        Self::new(draw_inclusive(rng, 100_000, 499_999))
    }

    /// The stress factor, in millionths.
    pub fn factor(&self) -> (f: i64)
        ensures
            f == self.value(),
    {
        self.0
    }

    /// Moves the stress toward `to` by the fraction `factor`, in
    /// millionths, and returns the new stress. The result lies between the
    /// old stress and `to`.
    pub fn lerp(&mut self, to: &Self, factor: i64) -> (now: Self)
        requires
            0 <= factor <= MICRO,
        ensures
            final(self).value() == blend(old(self).value(), to.value(), factor as int),
            old(self).value() <= to.value() ==> old(self).value() <= final(self).value() <= to.value(),
            to.value() <= old(self).value() ==> to.value() <= final(self).value() <= old(self).value(),
            now == *final(self),
    {
        proof {
            lemma_lerp_between(self.0 as int, to.0 as int, factor as int);
        }
        let step: i128 = portion_exec(to.0 as i128 - self.0 as i128, factor);
        self.0 = (self.0 as i128 + step) as i64;
        *self
    }
}

} // verus!
