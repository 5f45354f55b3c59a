//! Rank-weighted choice: the item of rank `i` weighs the `i`-th power of a
//! decay factor, and one uniform draw below the total weight decides.

use crate::source::draw_between;
use rand::rngs::StdRng;
use vstd::prelude::*;

verus! {

/// The weight of the best rank, and the scale of the decay factor: a factor
/// of `FULL_WEIGHT` keeps every rank as heavy as the first.
pub const FULL_WEIGHT: u32 = 1_000_000;

/// The weight of rank `i`: each rank weighs the one before it times the
/// factor, rounded down.
pub open spec fn weight(factor: u32, i: nat) -> nat
    decreases i,
{
    if i == 0 {
        FULL_WEIGHT as nat
    } else {
        weight(factor, (i - 1) as nat) * (factor as nat) / (FULL_WEIGHT as nat)
    }
}

/// The weight of the first `n` ranks together.
pub open spec fn total_weight(factor: u32, n: nat) -> nat
    decreases n,
{
    if n == 0 {
        0
    } else {
        total_weight(factor, (n - 1) as nat) + weight(factor, (n - 1) as nat)
    }
}

/// The weight of rank `i` and of all ranks before it.
pub open spec fn weight_through(factor: u32, i: nat) -> nat {
    total_weight(factor, i + 1)
}

/// Whether `table` holds, at each rank, the weight of all ranks up to it.
pub open spec fn is_cumulative(factor: u32, table: Seq<u128>) -> bool {
    forall|i: int| 0 <= i < table.len() ==> #[trigger] table[i] == weight_through(factor, i as nat)
}

/// Whether `rank` is the first entry of `table` that exceeds `draw`, or the
/// last entry where none does.
pub open spec fn is_first_exceeding(table: Seq<u128>, draw: u128, rank: int) -> bool {
    &&& 0 <= rank < table.len()
    &&& forall|j: int| 0 <= j < rank ==> #[trigger] table[j] <= draw
    &&& (draw < table[rank] || rank == table.len() - 1)
}

/// Whether `rank` is what `draw` selects among `n` ranks weighted by `factor`.
pub open spec fn is_rank_for(factor: u32, n: nat, draw: u128, rank: nat) -> bool {
    &&& rank < n
    &&& forall|j: nat| j < rank ==> #[trigger] weight_through(factor, j) <= draw
    &&& (draw < weight_through(factor, rank) || rank == n - 1)
}

/// No rank weighs more than the first.
pub proof fn lemma_weight_bounded(factor: u32, i: nat)
    requires
        factor <= FULL_WEIGHT,
    ensures
        weight(factor, i) <= FULL_WEIGHT,
    decreases i,
{
    if i > 0 {
        lemma_weight_bounded(factor, (i - 1) as nat);
        let w = weight(factor, (i - 1) as nat) as int;
        crate::angle::lemma_portion_bounded(w, factor as int);
    }
}

/// The table of cumulative weights for `n` ranks.
pub fn cumulative_weights(n: usize, factor: u32) -> (table: Vec<u128>)
    requires
        factor <= FULL_WEIGHT,
    ensures
        table.len() == n,
        is_cumulative(factor, table@),
{
    let mut table: Vec<u128> = Vec::new();
    let mut w: u64 = FULL_WEIGHT as u64;
    let mut total: u128 = 0;
    let mut i: usize = 0;
    while i < n
        invariant
            i <= n,
            factor <= FULL_WEIGHT,
            table.len() == i,
            is_cumulative(factor, table@),
            w == weight(factor, i as nat),
            w <= FULL_WEIGHT,
            total == total_weight(factor, i as nat),
            total <= i * FULL_WEIGHT,
        decreases n - i,
    {
        assert(i * FULL_WEIGHT + FULL_WEIGHT <= 0x1_0000_0000_0000_0000 * 1_000_000)
            by (nonlinear_arith)
            requires
                i < 0x1_0000_0000_0000_0000,
                FULL_WEIGHT == 1_000_000,
        ;
        total = total + w as u128;
        table.push(total);
        proof {
            lemma_weight_bounded(factor, (i + 1) as nat);
            assert(w * factor <= 1_000_000 * 1_000_000) by (nonlinear_arith)
                requires
                    w <= 1_000_000,
                    factor <= 1_000_000,
            ;
            assert((i + 1) * FULL_WEIGHT == i * FULL_WEIGHT + FULL_WEIGHT) by (nonlinear_arith);
        }
        w = w * (factor as u64) / (FULL_WEIGHT as u64);
        i += 1;
    }
    table
}

/// Walks `table` and stops at the first entry above `draw`; where the draw
/// reaches or passes every entry, the last rank is the answer.
pub fn first_exceeding(table: &Vec<u128>, draw: u128) -> (rank: usize)
    requires
        table.len() > 0,
    ensures
        is_first_exceeding(table@, draw, rank as int),
{
    let mut i: usize = 0;
    while i < table.len() - 1 && table[i] <= draw
        invariant
            i < table.len(),
            forall|j: int| 0 <= j < i ==> #[trigger] table[j] <= draw,
        decreases table.len() - i,
    {
        i += 1;
    }
    i
}

/// The rank that `draw` selects among `n` ranks whose weights decay by `factor`.
pub fn rank_for_draw(n: usize, factor: u32, draw: u128) -> (rank: usize)
    requires
        n > 0,
        factor <= FULL_WEIGHT,
    ensures
        is_rank_for(factor, n as nat, draw, rank as nat),
        draw < total_weight(factor, n as nat) ==> weight(factor, rank as nat) > 0,
{
    let table = cumulative_weights(n, factor);
    let rank = first_exceeding(&table, draw);
    proof {
        assert forall|j: nat| j < rank implies #[trigger] weight_through(factor, j) <= draw by {
            assert(table[j as int] <= draw);
        }
        assert(table[rank as int] == weight_through(factor, rank as nat));
        if draw < total_weight(factor, n as nat) {
            assert(table[n - 1] == weight_through(factor, (n - 1) as nat));
            if rank > 0 {
                assert(table[rank - 1] <= draw);
            }
        }
    }
    rank
}

/// Picks one of `n` ranked candidates at random, the better ranked the more
/// likely, and returns its rank; `None` where there is no candidate.
///
/// The draw is uniform below the total weight, so a rank whose weight has
/// decayed to nothing is never returned.
pub fn select_neighbor_probabilistic(rng: &mut StdRng, n: usize, factor: u32) -> (picked: Option<usize>)
    requires
        factor <= FULL_WEIGHT,
    ensures
        picked is None <==> n == 0,
        picked matches Some(rank) ==> rank < n && weight(factor, rank as nat) > 0 && exists|draw: u128|
            draw < total_weight(factor, n as nat) && #[trigger] is_rank_for(
                factor,
                n as nat,
                draw,
                rank as nat,
            ),
{
    if n == 0 {
        return None;
    }
    let table = cumulative_weights(n, factor);
    let total: u128 = table[n - 1];
    proof {
        lemma_total_weight_positive(factor, n as nat);
    }
    let draw: u128 = draw_between(rng, 0, total);
    let rank = rank_for_draw(n, factor, draw);
    assert(is_rank_for(factor, n as nat, draw, rank as nat));
    Some(rank)
}

/// One rank or more weighs something, and more ranks never weigh less.
pub proof fn lemma_total_weight_positive(factor: u32, n: nat)
    requires
        n > 0,
    ensures
        total_weight(factor, n) >= FULL_WEIGHT,
    decreases n,
{
    if n > 1 {
        lemma_total_weight_positive(factor, (n - 1) as nat);
    } else {
        assert(total_weight(factor, 0) == 0);
        assert(weight(factor, 0) == FULL_WEIGHT);
    }
}

} // verus!
