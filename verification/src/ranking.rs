//! Ordering a set of admitted items by an integer key.

use vstd::prelude::*;

verus! {

/// Whether the item `a` comes before the item `b`: by the smaller key, and
/// among equal keys by the smaller index.
pub open spec fn precedes(keys: Seq<u64>, a: int, b: int) -> bool {
    keys[a] < keys[b] || (keys[a] == keys[b] && a < b)
}

/// Whether `order` lists exactly the admitted indices, each once, best first.
///
/// At most one sequence is the ranking of given keys and admissions: its
/// members are fixed by the second and third clause and their order by the
/// fourth, which is strict.
pub open spec fn is_ranking(keys: Seq<u64>, admitted: Seq<bool>, order: Seq<usize>) -> bool {
    &&& keys.len() == admitted.len()
    &&& forall|k: int| 0 <= k < order.len() ==> (#[trigger] order[k]) < keys.len() && admitted[order[k] as int]
    &&& forall|i: int| 0 <= i < keys.len() && #[trigger] admitted[i] ==> has_index(order, i)
    &&& forall|a: int, b: int|
        0 <= a < b < order.len() ==> precedes(keys, #[trigger] order[a] as int, #[trigger] order[b] as int)
}

/// Whether `order` mentions the index `i`.
pub open spec fn has_index(order: Seq<usize>, i: int) -> bool {
    exists|k: int| 0 <= k < order.len() && #[trigger] order[k] == i
}

/// The admitted indices in order of rank: smaller key first, and among equal
/// keys the one that stands first in the input.
pub fn rank_admitted(keys: &Vec<u64>, admitted: &Vec<bool>) -> (order: Vec<usize>)
    requires
        keys.len() == admitted.len(),
    ensures
        is_ranking(keys@, admitted@, order@),
{
    let mut order: Vec<usize> = Vec::new();
    let mut i: usize = 0;
    while i < keys.len()
        invariant
            keys.len() == admitted.len(),
            i <= keys.len(),
            forall|k: int| 0 <= k < order.len() ==> (#[trigger] order[k]) < i && admitted[order[k] as int],
            forall|j: int| 0 <= j < i && #[trigger] admitted[j] ==> has_index(order@, j),
            forall|a: int, b: int|
                0 <= a < b < order.len() ==> precedes(
                    keys@,
                    #[trigger] order[a] as int,
                    #[trigger] order[b] as int,
                ),
        decreases keys.len() - i,
    {
        if admitted[i] {
            let key: u64 = keys[i];
            let mut p: usize = 0;
            while p < order.len() && keys[order[p]] <= key
                invariant
                    p <= order.len(),
                    i < keys.len(),
                    key == keys[i as int],
                    forall|k: int| 0 <= k < order.len() ==> (#[trigger] order[k]) < i,
                    forall|q: int| 0 <= q < p ==> keys[(#[trigger] order[q]) as int] <= key,
                decreases order.len() - p,
            {
                p += 1;
            }
            let ghost before: Seq<usize> = order@;
            order.insert(p, i);
            proof {
                assert(order@ == before.insert(p as int, i));
                assert forall|j: int| 0 <= j < i + 1 && #[trigger] admitted[j] implies has_index(
                    order@,
                    j,
                ) by {
                    if j == i {
                        assert(order[p as int] == i);
                    } else {
                        let k = choose|k: int| 0 <= k < before.len() && #[trigger] before[k] == j;
                        if k < p {
                            assert(order[k] == j);
                        } else {
                            assert(order[k + 1] == j);
                        }
                    }
                }
                assert forall|a: int, b: int| 0 <= a < b < order.len() implies precedes(
                    keys@,
                    #[trigger] order[a] as int,
                    #[trigger] order[b] as int,
                ) by {
                    let a0 = if a < p { a } else { a - 1 };
                    let b0 = if b < p { b } else { b - 1 };
                    if a == p {
                        // The new item against one that was pushed back.
                        assert(order[b] == before[b0]);
                        if p < b0 {
                            assert(precedes(keys@, before[p as int] as int, before[b0] as int));
                        }
                    } else if b == p {
                        assert(order[a] == before[a]);
                    } else {
                        assert(order[a] == before[a0]);
                        assert(order[b] == before[b0]);
                    }
                }
            }
        }
        i += 1;
    }
    order
}

/// A ranking holds no index twice.
pub proof fn lemma_ranking_distinct(keys: Seq<u64>, admitted: Seq<bool>, order: Seq<usize>)
    requires
        is_ranking(keys, admitted, order),
    ensures
        forall|a: int, b: int| 0 <= a < b < order.len() ==> order[a] != order[b],
{
    assert forall|a: int, b: int| 0 <= a < b < order.len() implies order[a] != order[b] by {
        assert(precedes(keys, order[a] as int, order[b] as int));
    }
}

/// Given keys and admissions have one ranking only.
pub proof fn lemma_ranking_unique(
    keys: Seq<u64>,
    admitted: Seq<bool>,
    first: Seq<usize>,
    second: Seq<usize>,
)
    requires
        is_ranking(keys, admitted, first),
        is_ranking(keys, admitted, second),
    ensures
        first == second,
    decreases first.len(),
{
    if first.len() == 0 {
        if second.len() > 0 {
            assert(admitted[second[0] as int]);
            assert(has_index(first, second[0] as int));
        }
        assert(first =~= second);
    } else if second.len() == 0 {
        assert(admitted[first[0] as int]);
        assert(has_index(second, first[0] as int));
    } else {
        // Each head is admitted, so it stands somewhere in the other
        // ranking, where nothing precedes that ranking's head.
        let f = first[0] as int;
        let s = second[0] as int;
        assert(admitted[f] && admitted[s]);
        assert(has_index(second, f));
        assert(has_index(first, s));
        let kf = choose|k: int| 0 <= k < second.len() && #[trigger] second[k] == f;
        let ks = choose|k: int| 0 <= k < first.len() && #[trigger] first[k] == s;
        if kf > 0 {
            assert(precedes(keys, second[0] as int, second[kf] as int));
        }
        if ks > 0 {
            assert(precedes(keys, first[0] as int, first[ks] as int));
        }
        assert(f == s);
        let admitted_rest = admitted.update(f, false);
        let first_rest = first.subrange(1, first.len() as int);
        let second_rest = second.subrange(1, second.len() as int);
        lemma_rest_is_ranking(keys, admitted, first);
        lemma_rest_is_ranking(keys, admitted, second);
        lemma_ranking_unique(keys, admitted_rest, first_rest, second_rest);
        assert(first =~= seq![first[0]] + first_rest);
        assert(second =~= seq![second[0]] + second_rest);
    }
}

/// Without its head a ranking ranks what is left once the head is no longer admitted.
pub proof fn lemma_rest_is_ranking(keys: Seq<u64>, admitted: Seq<bool>, order: Seq<usize>)
    requires
        is_ranking(keys, admitted, order),
        order.len() > 0,
    ensures
        is_ranking(
            keys,
            admitted.update(order[0] as int, false),
            order.subrange(1, order.len() as int),
        ),
{
    let head = order[0] as int;
    let rest = order.subrange(1, order.len() as int);
    let left = admitted.update(head, false);
    assert forall|k: int| 0 <= k < rest.len() implies (#[trigger] rest[k]) < keys.len()
        && left[rest[k] as int] by {
        assert(rest[k] == order[k + 1]);
        assert(precedes(keys, order[0] as int, order[k + 1] as int));
    }
    assert forall|i: int| 0 <= i < keys.len() && #[trigger] left[i] implies has_index(rest, i) by {
        assert(admitted[i]);
        let k = choose|k: int| 0 <= k < order.len() && #[trigger] order[k] == i;
        assert(rest[k - 1] == i);
    }
    assert forall|a: int, b: int| 0 <= a < b < rest.len() implies precedes(
        keys,
        #[trigger] rest[a] as int,
        #[trigger] rest[b] as int,
    ) by {
        assert(rest[a] == order[a + 1]);
        assert(rest[b] == order[b + 1]);
    }
}

} // verus!
