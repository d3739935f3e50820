//! Ordering of fitness values.
//!
//! A fitness is the bit pattern of a single-precision number; lower is better.

use vstd::prelude::*;

verus! {

/// Bit pattern of positive infinity. Larger magnitudes are not numbers.
pub const INFINITY: u32 = 0x7F80_0000;

/// The sign bit.
pub const SIGN: u32 = 0x8000_0000;

/// The bit pattern without its sign.
pub open spec fn magnitude(fitness: u32) -> int {
    if fitness >= SIGN {
        fitness - SIGN
    } else {
        fitness as int
    }
}

/// Whether the bit pattern stands for a finite number.
pub open spec fn is_finite(fitness: u32) -> bool {
    magnitude(fitness) < INFINITY
}

/// An integer that orders fitness values as the numbers they stand for.
///
/// Finite values keep their numeric order, and the two zeros are equal. All
/// values that are not finite share one rank, behind every finite value.
pub open spec fn rank(fitness: u32) -> int {
    if !is_finite(fitness) {
        INFINITY as int
    } else if fitness >= SIGN {
        -magnitude(fitness)
    } else {
        magnitude(fitness)
    }
}

/// Whether the individual at index `a` comes before the one at index `b`: it
/// has the lower rank, or the same rank and the lower index.
pub open spec fn precedes(fitness: Seq<u32>, a: int, b: int) -> bool {
    rank(fitness[a]) < rank(fitness[b]) || (rank(fitness[a]) == rank(fitness[b]) && a < b)
}

/// Whether `order` lists the indices of `fitness` from fittest to least fit:
/// every index occurs, and each entry precedes all later ones.
pub open spec fn is_ranking(order: Seq<usize>, fitness: Seq<u32>) -> bool {
    &&& order.len() == fitness.len()
    &&& forall|k: int| 0 <= k < order.len() ==> (#[trigger] order[k]) < fitness.len()
    &&& forall|i: usize| i < fitness.len() ==> #[trigger] order.contains(i)
    &&& forall|a: int, b: int|
        0 <= a < b < order.len() ==> precedes(fitness, #[trigger] order[a] as int, #[trigger] order[b] as int)
}

/// There is one ranking only: two orders that both rank the same fitness
/// values are the same order.
pub proof fn lemma_ranking_unique(first: Seq<usize>, second: Seq<usize>, fitness: Seq<u32>)
    requires
        is_ranking(first, fitness),
        is_ranking(second, fitness),
    ensures
        first == second,
{
    assert forall|k: int| 0 <= k < first.len() implies first[k] == second[k] by {
        lemma_rankings_agree(first, second, fitness, k);
    }
    assert(first =~= second);
}

/// The first of a ranking is the fittest: no fitness value has a lower rank
/// than the one it points at.
pub proof fn lemma_first_is_fittest(order: Seq<usize>, fitness: Seq<u32>)
    requires
        is_ranking(order, fitness),
        0 < fitness.len() <= usize::MAX,
    ensures
        forall|i: int|
            0 <= i < fitness.len() ==> rank(fitness[order[0] as int]) <= rank(#[trigger] fitness[i]),
{
    assert forall|i: int| 0 <= i < fitness.len() implies rank(fitness[order[0] as int]) <= rank(
        #[trigger] fitness[i],
    ) by {
        assert(order.contains(i as usize));
        let m = choose|m: int| 0 <= m < order.len() && order[m] == i as usize;
        if m > 0 {
            assert(precedes(fitness, order[0] as int, order[m] as int));
        }
    }
}

/// Two rankings of the same fitness values agree at place `k`.
proof fn lemma_rankings_agree(first: Seq<usize>, second: Seq<usize>, fitness: Seq<u32>, k: int)
    requires
        is_ranking(first, fitness),
        is_ranking(second, fitness),
        0 <= k < first.len(),
    ensures
        first[k] == second[k],
    decreases k,
{
    assert forall|j: int| 0 <= j < k implies first[j] == second[j] by {
        lemma_rankings_agree(first, second, fitness, j);
    }
    let a = first[k];
    let b = second[k];
    if a != b {
        if precedes(fitness, a as int, b as int) {
            // `a` stands somewhere in the second ranking: not before `k`,
            // where both agree, and not behind `b`, which it precedes.
            assert(second.contains(a));
            let m = choose|m: int| 0 <= m < second.len() && second[m] == a;
            if m < k {
                assert(precedes(fitness, first[m] as int, first[k] as int));
            } else {
                assert(precedes(fitness, second[k] as int, second[m] as int));
            }
        } else {
            assert(first.contains(b));
            let m = choose|m: int| 0 <= m < first.len() && first[m] == b;
            if m < k {
                assert(precedes(fitness, second[m] as int, second[k] as int));
            } else {
                assert(precedes(fitness, first[k] as int, first[m] as int));
            }
        }
    }
}

/// The rank of a fitness value.
pub fn rank_of(fitness: u32) -> (r: i64)
    ensures
        r == rank(fitness),
{
    let negative = fitness >= SIGN;
    let size: u32 = if negative { fitness - SIGN } else { fitness };
    if size >= INFINITY {
        INFINITY as i64
    } else if negative {
        -(size as i64)
    } else {
        size as i64
    }
}

/// The indices of `fitness` in stable ascending order of fitness.
pub fn sort_by_fitness(fitness: &Vec<u32>) -> (order: Vec<usize>)
    ensures
        is_ranking(order@, fitness@),
{
    let mut order: Vec<usize> = Vec::new();
    let mut next: usize = 0;
    while next < fitness.len()
        invariant
            next <= fitness.len(),
            order.len() == next,
            forall|k: int| 0 <= k < next ==> (#[trigger] order@[k]) < next,
            forall|i: usize| i < next ==> #[trigger] order@.contains(i),
            forall|a: int, b: int|
                0 <= a < b < next ==> precedes(
                    fitness@,
                    #[trigger] order@[a] as int,
                    #[trigger] order@[b] as int,
                ),
        decreases fitness.len() - next,
    {
        let key = rank_of(fitness[next]);
        let mut at: usize = next;
        while at > 0 && rank_of(fitness[order[at - 1]]) > key
            invariant
                at <= next,
                next < fitness.len(),
                order.len() == next,
                key == rank(fitness@[next as int]),
                forall|k: int| 0 <= k < next ==> (#[trigger] order@[k]) < next,
                forall|k: int| at <= k < next ==> rank(fitness@[(#[trigger] order@[k]) as int]) > key,
            decreases at,
        {
            at -= 1;
        }
        let ghost before = order@;
        order.insert(at, next);
        proof {
            let after = order@;
            assert forall|i: usize| i < next + 1 implies #[trigger] after.contains(i) by {
                if i < next {
                    assert(before.contains(i));
                    let k = choose|k: int| 0 <= k < before.len() && before[k] == i;
                    if k < at {
                        assert(after[k] == i);
                    } else {
                        assert(after[k + 1] == i);
                    }
                } else {
                    assert(after[at as int] == i);
                }
            }
            assert forall|a: int, b: int| 0 <= a < b < next + 1 implies precedes(
                fitness@,
                #[trigger] after[a] as int,
                #[trigger] after[b] as int,
            ) by {
                if b < at {
                } else if b == at {
                    // Every entry in front of the new one has a rank no greater
                    // than its own, and a lower index.
                    if a < at - 1 {
                        assert(precedes(fitness@, before[a] as int, before[at - 1] as int));
                    }
                    assert(after[a] == before[a]);
                } else if a < at {
                    assert(after[b] == before[b - 1]);
                    if a < b - 1 {
                        assert(precedes(fitness@, before[a] as int, before[b - 1] as int));
                    }
                } else if a == at {
                    assert(after[b] == before[b - 1]);
                } else {
                    assert(after[a] == before[a - 1]);
                    assert(after[b] == before[b - 1]);
                }
            }
        }
        next += 1;
    }
    order
}

} // verus!
