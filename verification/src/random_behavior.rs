//! Idle drift: now and then an agent's target speed, its stress and the
//! direction it aims for are nudged toward a random value. No neighbour is
//! looked at.

use crate::angle::{blend, Angle, MICRO, TAU};
use crate::components::{Idle, Speed, Stress};
use crate::source::{draw_inclusive, trial};
use rand::rngs::StdRng;
use vstd::prelude::*;

verus! {

/// The slowest target speed that drift aims for.
pub const DRIFT_SPEED_LOW: i64 = 10_000_000;

/// The fastest target speed that drift aims for.
pub const DRIFT_SPEED_HIGH: i64 = 100_000_000;

/// The calmest that drift aims for.
pub const DRIFT_STRESS_LOW: i64 = 100_000;

/// Drift aims for a stress below this.
pub const DRIFT_STRESS_HIGH: i64 = 500_000;

/// A nudge of the target velocity: blend it toward the unit vector of
/// `direction`, by the fraction `blend` in millionths.
#[derive(Debug, Copy, Clone, PartialEq, Eq, Structural)]
pub struct Turn {
    pub direction: Angle,
    pub blend: i64,
}

/// Whether `now` lies between `a` and `b`, whichever is the smaller.
pub open spec fn between(a: int, b: int, now: int) -> bool {
    (a <= now <= b) || (b <= now <= a)
}

pub struct RandomBehavior;

impl RandomBehavior {
    /// One agent's idle drift for one tick: three independent trials, for
    /// direction, speed and stress, in this order.
    ///
    /// Where the direction trial succeeds the turn to apply is returned: a
    /// direction from a full turn and a blend factor below one. Where the
    /// speed trial succeeds the target speed moves toward a speed between
    /// the two drift speeds, and where the stress trial succeeds the stress
    /// moves toward a value from a tenth to a half; each by a blend factor
    /// below one, so neither passes the value it moves toward. A trial
    /// whose chance is nothing changes nothing.
    pub fn system(rng: &mut StdRng, idle: &Idle, target_speed: &mut Speed, stress: &mut Stress) -> (turn: Option<Turn>)
        requires
            idle.wf(),
        ensures
            idle.chance_to_change_direction == 0 ==> turn is None,
            idle.chance_to_change_direction == MICRO ==> turn is Some,
            turn matches Some(t) ==> 0 <= t.direction.microradians < TAU && 0 <= t.blend < MICRO,
            idle.chance_to_change_speed == 0 ==> *final(target_speed) == *old(target_speed),
            *final(target_speed) == *old(target_speed) || exists|aim: int, t: int|
                DRIFT_SPEED_LOW <= aim <= DRIFT_SPEED_HIGH && 0 <= t < MICRO && final(target_speed).0
                    == #[trigger] blend(old(target_speed).0 as int, aim, t),
            between(old(target_speed).0 as int, DRIFT_SPEED_LOW as int, final(target_speed).0 as int)
                || between(old(target_speed).0 as int, DRIFT_SPEED_HIGH as int, final(target_speed).0 as int),
            idle.chance_to_change_stress == 0 ==> *final(stress) == *old(stress),
            *final(stress) == *old(stress) || exists|aim: int, t: int|
                DRIFT_STRESS_LOW <= aim < DRIFT_STRESS_HIGH && 0 <= t < MICRO && final(stress).value()
                    == #[trigger] blend(old(stress).value(), aim, t),
            between(old(stress).value(), DRIFT_STRESS_LOW as int, final(stress).value()) || between(
                old(stress).value(),
                DRIFT_STRESS_HIGH as int,
                final(stress).value(),
            ),
    {
        let mut turn: Option<Turn> = None;
        if trial(rng, idle.chance_to_change_direction) {
            let direction = Angle::new_random(rng, 0, TAU);
            let share: i64 = draw_inclusive(rng, 0, MICRO - 1);
            turn = Some(Turn { direction, blend: share });
        }
        if trial(rng, idle.chance_to_change_speed) {
            let aim = Speed::new_random(rng, DRIFT_SPEED_LOW, DRIFT_SPEED_HIGH);
            let share: i64 = draw_inclusive(rng, 0, MICRO - 1);
            target_speed.lerp(&aim, share);
            assert(target_speed.0 == blend(old(target_speed).0 as int, aim.0 as int, share as int));
        }
        if trial(rng, idle.chance_to_change_stress) {
            let aim = Stress::new_random(rng);
            let share: i64 = draw_inclusive(rng, 0, MICRO - 1);
            let ghost before = stress.value();
            stress.lerp(&aim, share);
            assert(stress.value() == blend(before, aim.value(), share as int));
        }
        turn
    }
}

} // verus!
