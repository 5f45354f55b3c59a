//! Which neighbour an agent reacts to.
//!
//! An agent sees the neighbours inside its visual field. Those within the
//! attraction radius are ranked by how central they are in view; where
//! there is none, all that are seen are ranked by distance. One of the
//! ranked is then picked at random, the better ranked the more likely.

use crate::angle::{angle_difference, size, wrap_upper, Angle};
use crate::pick::{cumulative_weights, is_rank_for, rank_for_draw, weight, weight_through, FULL_WEIGHT};
use crate::ranking::{has_index, is_ranking, lemma_ranking_unique, rank_admitted};
use crate::source::draw_between;
use rand::rngs::StdRng;
use vstd::prelude::*;

verus! {

/// Up to this distance, in millionths of a length unit, another agent
/// counts as standing on the same spot and is not looked at.
pub const COINCIDENT: u64 = 100;

/// What an agent knows of one other agent.
#[derive(Debug, Copy, Clone, PartialEq, Eq, Structural)]
pub struct Neighbor {
    /// How far away it is, in millionths of a length unit.
    pub distance: u64,
    /// The direction in which it lies.
    pub bearing: Angle,
    /// The direction in which it swims.
    pub heading: Angle,
}

/// The neighbour that was picked.
#[derive(Debug, Copy, Clone, PartialEq, Eq, Structural)]
pub struct Selection {
    /// Its place in the list of neighbours.
    pub index: usize,
    /// Its rank among the candidates, the best being 0.
    pub rank: usize,
    /// Its distance.
    pub distance: u64,
    /// The signed turn from the agent's heading to its bearing, in `(-PI, PI]`.
    pub offset: Angle,
}

/// The signed turn from `heading` to the bearing of `n`, the short way round.
pub open spec fn offset_of(heading: Angle, n: Neighbor) -> int {
    wrap_upper(n.bearing.microradians - heading.microradians)
}

/// Whether the agent sees `n`: it stands apart from the agent, and off the
/// heading by less than half the visual field.
pub open spec fn in_view(heading: Angle, field: Angle, n: Neighbor) -> bool {
    n.distance > COINCIDENT && 2 * size(offset_of(heading, n)) < field.microradians
}

/// Whether the agent sees `n` closer than `reach`.
pub open spec fn in_reach(heading: Angle, field: Angle, reach: u64, n: Neighbor) -> bool {
    in_view(heading, field, n) && n.distance < reach
}

/// Whether the agent sees any neighbour closer than `reach`.
pub open spec fn any_in_reach(heading: Angle, field: Angle, reach: u64, all: Seq<Neighbor>) -> bool {
    exists|i: int| 0 <= i < all.len() && in_reach(heading, field, reach, #[trigger] all[i])
}

/// The key by which each neighbour is ranked: its offset from the heading
/// where some neighbour is in reach, else its distance.
pub open spec fn candidate_keys(heading: Angle, field: Angle, reach: u64, all: Seq<Neighbor>) -> Seq<u64> {
    Seq::new(
        all.len(),
        |i: int|
            if any_in_reach(heading, field, reach, all) {
                size(offset_of(heading, all[i])) as u64
            } else {
                all[i].distance
            },
    )
}

/// Which neighbours are candidates: those in reach where there is one, else
/// those in view.
pub open spec fn candidate_admitted(heading: Angle, field: Angle, reach: u64, all: Seq<Neighbor>) -> Seq<bool> {
    Seq::new(
        all.len(),
        |i: int|
            if any_in_reach(heading, field, reach, all) {
                in_reach(heading, field, reach, all[i])
            } else {
                in_view(heading, field, all[i])
            },
    )
}

/// Whether `picked` is the outcome of the selection for the given draw:
/// nothing where no neighbour is a candidate, else the candidate whose rank
/// the draw selects, with its distance and offset.
pub open spec fn is_selection(
    heading: Angle,
    field: Angle,
    reach: u64,
    factor: u32,
    all: Seq<Neighbor>,
    draw: u128,
    picked: Option<Selection>,
) -> bool {
    match picked {
        None => forall|i: int| 0 <= i < all.len() ==> !in_view(heading, field, #[trigger] all[i]),
        Some(s) => exists|order: Seq<usize>|
            {
                &&& #[trigger] is_ranking(
                    candidate_keys(heading, field, reach, all),
                    candidate_admitted(heading, field, reach, all),
                    order,
                )
                &&& is_rank_for(factor, order.len(), draw, s.rank as nat)
                &&& s.index == order[s.rank as int]
                &&& s.distance == all[s.index as int].distance
                &&& s.offset.microradians == offset_of(heading, all[s.index as int])
            },
    }
}

/// The candidates among `neighbors`, best first.
pub fn rank_candidates(heading: Angle, field: Angle, reach: u64, neighbors: &Vec<Neighbor>) -> (order: Vec<usize>)
    ensures
        is_ranking(
            candidate_keys(heading, field, reach, neighbors@),
            candidate_admitted(heading, field, reach, neighbors@),
            order@,
        ),
        order.len() == 0 <==> forall|i: int|
            0 <= i < neighbors.len() ==> !in_view(heading, field, #[trigger] neighbors[i]),
{
    let mut offsets: Vec<u64> = Vec::new();
    let mut distances: Vec<u64> = Vec::new();
    let mut seen: Vec<bool> = Vec::new();
    let mut near: Vec<bool> = Vec::new();
    let mut i: usize = 0;
    while i < neighbors.len()
        invariant
            i <= neighbors.len(),
            offsets.len() == i,
            distances.len() == i,
            seen.len() == i,
            near.len() == i,
            forall|j: int| 0 <= j < i ==> #[trigger] offsets[j] == size(offset_of(heading, neighbors[j])),
            forall|j: int| 0 <= j < i ==> #[trigger] distances[j] == neighbors[j].distance,
            forall|j: int| 0 <= j < i ==> #[trigger] seen[j] == in_view(heading, field, neighbors[j]),
            forall|j: int| 0 <= j < i ==> #[trigger] near[j] == in_reach(heading, field, reach, neighbors[j]),
        decreases neighbors.len() - i,
    {
        let n: Neighbor = neighbors[i];
        let turn: i64 = angle_difference(heading, n.bearing).microradians;
        let off: i64 = if turn < 0 {
            -turn
        } else {
            turn
        };
        let visible: bool = n.distance > COINCIDENT && 2 * off < field.microradians;
        offsets.push(off as u64);
        distances.push(n.distance);
        seen.push(visible);
        near.push(visible && n.distance < reach);
        i += 1;
    }
    let ghost all = neighbors@;
    let first = rank_admitted(&offsets, &near);
    if first.len() > 0 {
        proof {
            let w = first[0] as int;
            assert(near[w]);
            assert(in_reach(heading, field, reach, all[w]));
            assert(any_in_reach(heading, field, reach, all));
            assert(candidate_keys(heading, field, reach, all) =~= offsets@);
            assert(candidate_admitted(heading, field, reach, all) =~= near@);
            assert(in_view(heading, field, neighbors[w]));
        }
        first
    } else {
        proof {
            if any_in_reach(heading, field, reach, all) {
                let w = choose|w: int| 0 <= w < all.len() && in_reach(heading, field, reach, #[trigger] all[w]);
                assert(near[w]);
                assert(has_index(first@, w));
            }
            assert(candidate_keys(heading, field, reach, all) =~= distances@);
            assert(candidate_admitted(heading, field, reach, all) =~= seen@);
        }
        let second = rank_admitted(&distances, &seen);
        proof {
            if second.len() > 0 {
                let w = second[0] as int;
                assert(seen[w]);
                assert(in_view(heading, field, neighbors[w]));
            } else {
                assert forall|i: int| 0 <= i < neighbors.len() implies !in_view(
                    heading,
                    field,
                    #[trigger] neighbors[i],
                ) by {
                    if in_view(heading, field, neighbors[i]) {
                        assert(seen[i]);
                        assert(has_index(second@, i));
                    }
                }
            }
        }
        second
    }
}

/// The candidate of the given rank, with what the agent measures of it.
fn selection_at(
    heading: Angle,
    field: Angle,
    reach: u64,
    neighbors: &Vec<Neighbor>,
    order: &Vec<usize>,
    rank: usize,
) -> (s: Selection)
    requires
        is_ranking(
            candidate_keys(heading, field, reach, neighbors@),
            candidate_admitted(heading, field, reach, neighbors@),
            order@,
        ),
        rank < order.len(),
    ensures
        s.rank == rank,
        s.index == order[rank as int],
        s.index < neighbors.len(),
        s.distance == neighbors[s.index as int].distance,
        s.offset.microradians == offset_of(heading, neighbors[s.index as int]),
        in_view(heading, field, neighbors[s.index as int]),
{
    let index: usize = order[rank];
    assert(candidate_admitted(heading, field, reach, neighbors@)[index as int]);
    let n: Neighbor = neighbors[index];
    Selection { index, rank, distance: n.distance, offset: angle_difference(heading, n.bearing) }
}

/// The selection that the given draw leads to.
///
/// The outcome is a function of the arguments: the same neighbours and the
/// same draw give the same selection.
pub fn select_with_draw(
    heading: Angle,
    field: Angle,
    reach: u64,
    factor: u32,
    neighbors: &Vec<Neighbor>,
    draw: u128,
) -> (picked: Option<Selection>)
    requires
        factor <= FULL_WEIGHT,
    ensures
        is_selection(heading, field, reach, factor, neighbors@, draw, picked),
        picked matches Some(s) ==> s.index < neighbors.len() && in_view(
            heading,
            field,
            neighbors[s.index as int],
        ),
{
    let order = rank_candidates(heading, field, reach, neighbors);
    if order.len() == 0 {
        None
    } else {
        let rank = rank_for_draw(order.len(), factor, draw);
        let s = selection_at(heading, field, reach, neighbors, &order, rank);
        Some(s)
    }
}

/// Picks the neighbour to react to, or none where the agent sees nobody.
///
/// Whatever is drawn, the neighbour returned is in view, it is in reach
/// where any neighbour is, and its rank has a weight above zero.
pub fn choose_neighbor(
    rng: &mut StdRng,
    heading: Angle,
    field: Angle,
    reach: u64,
    factor: u32,
    neighbors: &Vec<Neighbor>,
) -> (picked: Option<Selection>)
    requires
        factor <= FULL_WEIGHT,
    ensures
        picked is None <==> forall|i: int|
            0 <= i < neighbors.len() ==> !in_view(heading, field, #[trigger] neighbors[i]),
        picked matches Some(s) ==> {
            &&& s.index < neighbors.len()
            &&& in_view(heading, field, neighbors[s.index as int])
            &&& candidate_admitted(heading, field, reach, neighbors@)[s.index as int]
            &&& 2 * size(s.offset.microradians as int) < field.microradians
            &&& s.distance == neighbors[s.index as int].distance
            &&& s.offset.microradians == offset_of(heading, neighbors[s.index as int])
            &&& weight(factor, s.rank as nat) > 0
            &&& exists|draw: u128| is_selection(heading, field, reach, factor, neighbors@, draw, picked)
        },
{
    let order = rank_candidates(heading, field, reach, neighbors);
    if order.len() == 0 {
        return None;
    }
    let table = cumulative_weights(order.len(), factor);
    let total: u128 = table[order.len() - 1];
    proof {
        crate::pick::lemma_total_weight_positive(factor, order.len() as nat);
    }
    let draw: u128 = draw_between(rng, 0, total);
    let rank = rank_for_draw(order.len(), factor, draw);
    let s = selection_at(heading, field, reach, neighbors, &order, rank);
    proof {
        assert(is_selection(heading, field, reach, factor, neighbors@, draw, Some(s)));
    }
    Some(s)
}

/// The selection is decided by the neighbours and the draw: two outcomes
/// for the same arguments are one and the same.
pub proof fn lemma_selection_deterministic(
    heading: Angle,
    field: Angle,
    reach: u64,
    factor: u32,
    all: Seq<Neighbor>,
    draw: u128,
    first: Option<Selection>,
    second: Option<Selection>,
)
    requires
        is_selection(heading, field, reach, factor, all, draw, first),
        is_selection(heading, field, reach, factor, all, draw, second),
    ensures
        first == second,
{
    let keys = candidate_keys(heading, field, reach, all);
    let admitted = candidate_admitted(heading, field, reach, all);
    match (first, second) {
        (Some(a), Some(b)) => {
            let oa = choose|order: Seq<usize>|
                {
                    &&& #[trigger] is_ranking(keys, admitted, order)
                    &&& is_rank_for(factor, order.len(), draw, a.rank as nat)
                    &&& a.index == order[a.rank as int]
                    &&& a.distance == all[a.index as int].distance
                    &&& a.offset.microradians == offset_of(heading, all[a.index as int])
                };
            let ob = choose|order: Seq<usize>|
                {
                    &&& #[trigger] is_ranking(keys, admitted, order)
                    &&& is_rank_for(factor, order.len(), draw, b.rank as nat)
                    &&& b.index == order[b.rank as int]
                    &&& b.distance == all[b.index as int].distance
                    &&& b.offset.microradians == offset_of(heading, all[b.index as int])
                };
            lemma_ranking_unique(keys, admitted, oa, ob);
            if a.rank < b.rank {
                assert(weight_through(factor, a.rank as nat) <= draw);
            }
            if b.rank < a.rank {
                assert(weight_through(factor, b.rank as nat) <= draw);
            }
            assert(a.rank == b.rank);
        },
        (Some(a), None) => {
            lemma_selected_in_view(heading, field, reach, factor, all, draw, a);
        },
        (None, Some(b)) => {
            lemma_selected_in_view(heading, field, reach, factor, all, draw, b);
        },
        (None, None) => {},
    }
}

/// Nobody outside the visual field is ever selected: the neighbour picked
/// lies off the heading by less than half the field.
pub proof fn lemma_selected_in_view(
    heading: Angle,
    field: Angle,
    reach: u64,
    factor: u32,
    all: Seq<Neighbor>,
    draw: u128,
    s: Selection,
)
    requires
        is_selection(heading, field, reach, factor, all, draw, Some(s)),
    ensures
        s.index < all.len(),
        in_view(heading, field, all[s.index as int]),
        2 * size(s.offset.microradians as int) < field.microradians,
{
    let keys = candidate_keys(heading, field, reach, all);
    let admitted = candidate_admitted(heading, field, reach, all);
    let order = choose|order: Seq<usize>|
        {
            &&& #[trigger] is_ranking(keys, admitted, order)
            &&& is_rank_for(factor, order.len(), draw, s.rank as nat)
            &&& s.index == order[s.rank as int]
            &&& s.distance == all[s.index as int].distance
            &&& s.offset.microradians == offset_of(heading, all[s.index as int])
        };
    assert(admitted[order[s.rank as int] as int]);
}

} // verus!
