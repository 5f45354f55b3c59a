//! The schooling decision of one agent for one tick: which way to turn,
//! given the neighbours it sees.

use crate::angle::{angle_difference, size, wrap_upper, Angle, TAU};
use crate::neighbor::{
    candidate_admitted, choose_neighbor, in_view, is_selection, lemma_selected_in_view, select_with_draw, Neighbor,
    Selection,
};
use crate::pick::FULL_WEIGHT;
use crate::source::draw_between;
use rand::rngs::StdRng;
use vstd::prelude::*;

verus! {

/// A quarter turn, in microradians.
pub const QUARTER: i64 = 1_570_796;

/// The parameters of the schooling rule. Lengths are in millionths of a
/// length unit, angles in microradians, the two gamma parameters and the
/// reference factor in millionths.
#[derive(Debug, Copy, Clone, PartialEq, Eq, Structural)]
pub struct SchoolingConfig {
    /// Shape of the gamma distribution that speeds are drawn from.
    pub gamma_dist_k: u64,
    /// Rate of the gamma distribution that speeds are drawn from.
    pub gamma_dist_a: u64,
    /// A neighbour closer than this is steered away from.
    pub avoidance_radius: u64,
    /// A neighbour closer than this, and not avoided, is swum along with.
    pub alignment_radius: u64,
    /// Neighbours closer than this are preferred as candidates.
    pub attraction_radius: u64,
    /// Width of the visual field, centred on the heading.
    pub visual_field: Angle,
    /// Angular noise of avoidance and of attraction.
    pub avoidance_attraction_standard_deviation: Angle,
    /// Angular noise of alignment.
    pub alignment_standard_deviation: Angle,
    /// By how much the weight of a candidate decays with each rank.
    pub reference_factor: u32,
}

impl Default for SchoolingConfig {
    /// Radii of 50, 30 and 15 length units, a visual field of 150 degrees,
    /// noise of 15 degrees, speeds from a gamma distribution of shape 4 and
    /// rate 3.3, and a reference factor of one half.
    fn default() -> (config: Self)
        ensures
            config == (SchoolingConfig {
                gamma_dist_k: 4_000_000,
                gamma_dist_a: 3_300_000,
                avoidance_radius: 50_000_000,
                alignment_radius: 30_000_000,
                attraction_radius: 15_000_000,
                visual_field: Angle { microradians: 2_617_994 },
                avoidance_attraction_standard_deviation: Angle { microradians: 261_799 },
                alignment_standard_deviation: Angle { microradians: 261_799 },
                reference_factor: 500_000,
            }),
    {
        SchoolingConfig {
            gamma_dist_k: 4_000_000,
            gamma_dist_a: 3_300_000,
            avoidance_radius: 50_000_000,
            alignment_radius: 30_000_000,
            attraction_radius: 15_000_000,
            visual_field: Angle { microradians: 2_617_994 },
            avoidance_attraction_standard_deviation: Angle { microradians: 261_799 },
            alignment_standard_deviation: Angle { microradians: 261_799 },
            reference_factor: 500_000,
        }
    }
}

/// How an agent reacts to the neighbour it picked.
#[derive(Debug, Copy, Clone, PartialEq, Eq, Structural)]
pub enum Response {
    /// Turn across the line to the neighbour.
    Avoidance,
    /// Take up the neighbour's heading.
    Alignment,
    /// Head for the neighbour.
    Attraction,
}

/// What the new heading is, or is to be drawn from.
#[derive(Debug, Copy, Clone, PartialEq, Eq, Structural)]
pub enum Steering {
    /// Nobody in view: the heading is `heading`, drawn from a full turn.
    Free { heading: Angle },
    /// The heading is to be drawn from a normal distribution with this mean
    /// and this standard deviation.
    Around { mean: Angle, spread: Angle },
}

/// The reaction to a neighbour at `distance`: avoidance inside the
/// avoidance radius, else alignment inside the alignment radius, else
/// attraction. The radii need not be nested.
pub open spec fn response_spec(distance: u64, config: SchoolingConfig) -> Response {
    if distance < config.avoidance_radius {
        Response::Avoidance
    } else if distance < config.alignment_radius {
        Response::Alignment
    } else {
        Response::Attraction
    }
}

/// Of the two directions across `bearing`, the one nearer to `heading`;
/// where both are as near, the one a quarter turn below the bearing.
pub open spec fn avoidance_mean_spec(heading: int, bearing: int) -> int {
    if size(wrap_upper(bearing + QUARTER - heading)) < size(
        wrap_upper(bearing - QUARTER - heading),
    ) {
        bearing + QUARTER
    } else {
        bearing - QUARTER
    }
}

/// The steering that the picked neighbour `n` calls for.
pub open spec fn steering_for(heading: Angle, n: Neighbor, config: SchoolingConfig) -> Steering {
    match response_spec(n.distance, config) {
        Response::Avoidance => Steering::Around {
            mean: Angle {
                microradians: avoidance_mean_spec(
                    heading.microradians as int,
                    n.bearing.microradians as int,
                ) as i64,
            },
            spread: config.avoidance_attraction_standard_deviation,
        },
        Response::Alignment => Steering::Around {
            mean: n.heading,
            spread: config.alignment_standard_deviation,
        },
        Response::Attraction => Steering::Around {
            mean: n.bearing,
            spread: config.avoidance_attraction_standard_deviation,
        },
    }
}

/// Whether `steering` is what the draws lead to: with nobody in view the
/// heading `wander`, else what the neighbour selected by `draw` calls for.
pub open spec fn is_decision(
    heading: Angle,
    all: Seq<Neighbor>,
    config: SchoolingConfig,
    draw: u128,
    wander: Angle,
    steering: Steering,
) -> bool {
    if forall|i: int| 0 <= i < all.len() ==> !in_view(heading, config.visual_field, #[trigger] all[i]) {
        steering == (Steering::Free { heading: wander })
    } else {
        exists|s: Selection|
            {
                &&& #[trigger] is_selection(
                    heading,
                    config.visual_field,
                    config.attraction_radius,
                    config.reference_factor,
                    all,
                    draw,
                    Some(s),
                )
                &&& s.index < all.len()
                &&& steering == steering_for(heading, all[s.index as int], config)
            }
    }
}

/// Whether a quarter turn can be added to the bearing and taken from it.
pub open spec fn bearing_in_bounds(n: Neighbor) -> bool {
    i64::MIN + QUARTER <= n.bearing.microradians <= i64::MAX - QUARTER
}

/// The reaction to a neighbour at `distance`.
pub fn response_for(distance: u64, config: &SchoolingConfig) -> (r: Response)
    ensures
        r == response_spec(distance, *config),
{
    if distance < config.avoidance_radius {
        Response::Avoidance
    } else if distance < config.alignment_radius {
        Response::Alignment
    } else {
        Response::Attraction
    }
}

/// The direction in which to avoid a neighbour that lies at `bearing`.
pub fn avoidance_mean(heading: Angle, bearing: Angle) -> (mean: Angle)
    requires
        i64::MIN + QUARTER <= bearing.microradians <= i64::MAX - QUARTER,
    ensures
        mean.microradians == avoidance_mean_spec(heading.microradians as int, bearing.microradians as int),
{
    let above = Angle { microradians: bearing.microradians + QUARTER };
    let below = Angle { microradians: bearing.microradians - QUARTER };
    let turn_above: i64 = angle_difference(heading, above).microradians;
    let turn_below: i64 = angle_difference(heading, below).microradians;
    let gap_above: i64 = if turn_above < 0 {
        -turn_above
    } else {
        turn_above
    };
    let gap_below: i64 = if turn_below < 0 {
        -turn_below
    } else {
        turn_below
    };
    if gap_above < gap_below {
        above
    } else {
        below
    }
}

/// The steering that the picked neighbour `n` calls for.
pub fn steer_toward(heading: Angle, n: &Neighbor, config: &SchoolingConfig) -> (steering: Steering)
    requires
        bearing_in_bounds(*n),
    ensures
        steering == steering_for(heading, *n, *config),
{
    match response_for(n.distance, config) {
        Response::Avoidance => Steering::Around {
            mean: avoidance_mean(heading, n.bearing),
            spread: config.avoidance_attraction_standard_deviation,
        },
        Response::Alignment => Steering::Around {
            mean: n.heading,
            spread: config.alignment_standard_deviation,
        },
        Response::Attraction => Steering::Around {
            mean: n.bearing,
            spread: config.avoidance_attraction_standard_deviation,
        },
    }
}

/// One agent's schooling step: its heading, the neighbours as it measures
/// them, the parameters, and the steering decided last.
#[derive(Debug)]
pub struct SchoolingMechanism {
    pub heading: Angle,
    pub neighbors: Vec<Neighbor>,
    pub config: SchoolingConfig,
    pub steering: Steering,
}

impl SchoolingMechanism {
    /// Whether the step can run: the reference factor is at most one, and
    /// every bearing leaves room for a quarter turn either way.
    pub open spec fn wf(&self) -> bool {
        &&& self.config.reference_factor <= FULL_WEIGHT
        &&& forall|i: int| 0 <= i < self.neighbors.len() ==> bearing_in_bounds(#[trigger] self.neighbors[i])
    }

    /// Whether every bearing in `neighbors` leaves room for a quarter turn.
    pub fn bearings_in_bounds(neighbors: &Vec<Neighbor>) -> (ok: bool)
        ensures
            ok <==> forall|i: int| 0 <= i < neighbors.len() ==> bearing_in_bounds(#[trigger] neighbors[i]),
    {
        let mut i: usize = 0;
        while i < neighbors.len()
            invariant
                i <= neighbors.len(),
                forall|j: int| 0 <= j < i ==> bearing_in_bounds(#[trigger] neighbors[j]),
            decreases neighbors.len() - i,
        {
            let b: i64 = neighbors[i].bearing.microradians;
            if b < i64::MIN + QUARTER || b > i64::MAX - QUARTER {
                assert(!bearing_in_bounds(neighbors[i as int]));
                return false;
            }
            i += 1;
        }
        true
    }

    /// The step of an agent that swims toward `heading`, before any
    /// decision: its steering holds the course.
    pub fn setup(heading: Angle, neighbors: Vec<Neighbor>, config: SchoolingConfig) -> (step: Self)
        requires
            config.reference_factor <= FULL_WEIGHT,
            forall|i: int| 0 <= i < neighbors.len() ==> bearing_in_bounds(#[trigger] neighbors[i]),
        ensures
            step.wf(),
            step.heading == heading,
            step.neighbors == neighbors,
            step.config == config,
            step.steering == (Steering::Around { mean: heading, spread: Angle { microradians: 0 } }),
    {
        Self {
            heading,
            neighbors,
            config,
            steering: Steering::Around { mean: heading, spread: Angle { microradians: 0 } },
        }
    }

    /// The steering that the two draws lead to: `draw` selects among the
    /// candidates, and `wander` is the heading of an agent that sees nobody.
    /// The step itself stays as it is.
    pub fn decide(&self, draw: u128, wander: Angle) -> (steering: Steering)
        requires
            self.wf(),
        ensures
            is_decision(self.heading, self.neighbors@, self.config, draw, wander, steering),
    {
        let picked: Option<Selection> = select_with_draw(
            self.heading,
            self.config.visual_field,
            self.config.attraction_radius,
            self.config.reference_factor,
            &self.neighbors,
            draw,
        );
        match picked {
            Some(s) => {
                let n: Neighbor = self.neighbors[s.index];
                steer_toward(self.heading, &n, &self.config)
            },
            None => Steering::Free { heading: wander },
        }
    }

    /// Hands out the steering decided last.
    pub fn set_behavior(&self, steering: &mut Steering)
        ensures
            *final(steering) == self.steering,
    {
        *steering = self.steering;
    }

    /// Decides the steering for this tick.
    ///
    /// An agent that sees nobody wanders: its heading is drawn from a full
    /// turn. Otherwise the steering is the one that some candidate calls
    /// for. The neighbours, the heading and the parameters stay as they are.
    pub fn update(&mut self, rng: &mut StdRng)
        requires
            old(self).wf(),
        ensures
            final(self).wf(),
            final(self).heading == old(self).heading,
            final(self).neighbors == old(self).neighbors,
            final(self).config == old(self).config,
            (forall|i: int|
                0 <= i < old(self).neighbors.len() ==> !in_view(
                    old(self).heading,
                    old(self).config.visual_field,
                    #[trigger] old(self).neighbors[i],
                )) ==> (final(self).steering matches Steering::Free { heading }
                && 0 <= heading.microradians < TAU),
            (exists|i: int|
                0 <= i < old(self).neighbors.len() && in_view(
                    old(self).heading,
                    old(self).config.visual_field,
                    #[trigger] old(self).neighbors[i],
                )) ==> (exists|i: int|
                0 <= i < old(self).neighbors.len() && (#[trigger] candidate_admitted(
                    old(self).heading,
                    old(self).config.visual_field,
                    old(self).config.attraction_radius,
                    old(self).neighbors@,
                )[i]) && final(self).steering == steering_for(
                    old(self).heading,
                    old(self).neighbors[i],
                    old(self).config,
                )),
            exists|draw: u128, wander: Angle|
                0 <= wander.microradians < TAU && #[trigger] is_decision(
                    old(self).heading,
                    old(self).neighbors@,
                    old(self).config,
                    draw,
                    wander,
                    final(self).steering,
                ),
    {
        let picked: Option<Selection> = choose_neighbor(
            rng,
            self.heading,
            self.config.visual_field,
            self.config.attraction_radius,
            self.config.reference_factor,
            &self.neighbors,
        );
        match picked {
            Some(s) => {
                let n: Neighbor = self.neighbors[s.index];
                self.steering = steer_toward(self.heading, &n, &self.config);
                proof {
                    let draw = choose|draw: u128|
                        is_selection(
                            self.heading,
                            self.config.visual_field,
                            self.config.attraction_radius,
                            self.config.reference_factor,
                            self.neighbors@,
                            draw,
                            picked,
                        );
                    assert(in_view(self.heading, self.config.visual_field, self.neighbors[s.index as int]));
                    assert(is_decision(
                        self.heading,
                        self.neighbors@,
                        self.config,
                        draw,
                        Angle { microradians: 0 },
                        self.steering,
                    ));
                }
            },
            None => {
                let drawn: u128 = draw_between(rng, 0, TAU as u128);
                let wander = Angle { microradians: drawn as i64 };
                self.steering = Steering::Free { heading: wander };
                assert(is_decision(self.heading, self.neighbors@, self.config, 0, wander, self.steering));
            },
        }
    }
}

/// The steering is decided by the step and the two draws: two decisions
/// for the same arguments are one and the same.
pub proof fn lemma_decision_deterministic(
    heading: Angle,
    all: Seq<Neighbor>,
    config: SchoolingConfig,
    draw: u128,
    wander: Angle,
    first: Steering,
    second: Steering,
)
    requires
        is_decision(heading, all, config, draw, wander, first),
        is_decision(heading, all, config, draw, wander, second),
    ensures
        first == second,
{
    if !(forall|i: int| 0 <= i < all.len() ==> !in_view(heading, config.visual_field, #[trigger] all[i])) {
        let a = choose|s: Selection|
            {
                &&& #[trigger] is_selection(
                    heading,
                    config.visual_field,
                    config.attraction_radius,
                    config.reference_factor,
                    all,
                    draw,
                    Some(s),
                )
                &&& s.index < all.len()
                &&& first == steering_for(heading, all[s.index as int], config)
            };
        let b = choose|s: Selection|
            {
                &&& #[trigger] is_selection(
                    heading,
                    config.visual_field,
                    config.attraction_radius,
                    config.reference_factor,
                    all,
                    draw,
                    Some(s),
                )
                &&& s.index < all.len()
                &&& second == steering_for(heading, all[s.index as int], config)
            };
        crate::neighbor::lemma_selection_deterministic(
            heading,
            config.visual_field,
            config.attraction_radius,
            config.reference_factor,
            all,
            draw,
            Some(a),
            Some(b),
        );
    }
}

/// An agent never steers by a neighbour outside its visual field: whatever
/// the draws, a steering other than free wandering is the one that some
/// neighbour in view calls for.
pub proof fn lemma_decision_in_view(
    heading: Angle,
    all: Seq<Neighbor>,
    config: SchoolingConfig,
    draw: u128,
    wander: Angle,
    steering: Steering,
)
    requires
        is_decision(heading, all, config, draw, wander, steering),
    ensures
        steering == (Steering::Free { heading: wander }) || exists|i: int|
            0 <= i < all.len() && in_view(heading, config.visual_field, #[trigger] all[i]) && steering
                == steering_for(heading, all[i], config),
{
    if !(forall|i: int| 0 <= i < all.len() ==> !in_view(heading, config.visual_field, #[trigger] all[i])) {
        let s = choose|s: Selection|
            {
                &&& #[trigger] is_selection(
                    heading,
                    config.visual_field,
                    config.attraction_radius,
                    config.reference_factor,
                    all,
                    draw,
                    Some(s),
                )
                &&& s.index < all.len()
                &&& steering == steering_for(heading, all[s.index as int], config)
            };
        lemma_selected_in_view(
            heading,
            config.visual_field,
            config.attraction_radius,
            config.reference_factor,
            all,
            draw,
            s,
        );
        assert(in_view(heading, config.visual_field, all[s.index as int]));
    }
}

} // verus!
