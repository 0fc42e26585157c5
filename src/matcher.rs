use vstd::prelude::*;

use crate::transaction::{gap, is_candidate, on_side, Direction, Transaction};

verus! {

/// `v` is the position of the first swap in `txs`.
pub open spec fn is_first_swap(txs: Seq<Transaction>, v: int) -> bool {
    &&& 0 <= v < txs.len()
    &&& txs[v].is_uniswap_swap
    &&& forall|j: int| 0 <= j < v ==> !(#[trigger] txs[j]).is_uniswap_swap
}

/// Position of the victim: the first swap of the cluster, if there is one.
pub open spec fn first_swap(txs: Seq<Transaction>) -> Option<int> {
    if exists|v: int| is_first_swap(txs, v) {
        Some(choose|v: int| is_first_swap(txs, v))
    } else {
        None
    }
}

/// `k` is the position of the candidate closest in time to `reference` on side
/// `d`; among candidates at the same distance, the earliest in `txs` wins.
pub open spec fn is_nearest(txs: Seq<Transaction>, reference: Transaction, d: Direction, k: int) -> bool {
    &&& 0 <= k < txs.len()
    &&& is_candidate(txs[k], reference, d)
    &&& forall|j: int|
        0 <= j < txs.len() && is_candidate(#[trigger] txs[j], reference, d) ==> gap(txs[k], reference, d)
            <= gap(txs[j], reference, d)
    &&& forall|j: int|
        0 <= j < k && is_candidate(#[trigger] txs[j], reference, d) ==> gap(txs[k], reference, d) < gap(
            txs[j],
            reference,
            d,
        )
}

/// Position of the transaction matched with `reference` on side `d`, if any.
pub open spec fn nearest(txs: Seq<Transaction>, reference: Transaction, d: Direction) -> Option<int> {
    if exists|k: int| is_nearest(txs, reference, d, k) {
        Some(choose|k: int| is_nearest(txs, reference, d, k))
    } else {
        None
    }
}

/// There is at most one first swap, so `first_swap` names it.
pub proof fn lemma_first_swap_is(txs: Seq<Transaction>, v: int)
    requires
        is_first_swap(txs, v),
    ensures
        first_swap(txs) == Some(v),
{
    let w = choose|w: int| is_first_swap(txs, w);
    assert(is_first_swap(txs, w));
    if w < v {
        assert(!txs[w].is_uniswap_swap);
    } else if v < w {
        assert(!txs[v].is_uniswap_swap);
    }
}

/// A cluster without swaps has no victim.
pub proof fn lemma_no_swap(txs: Seq<Transaction>)
    requires
        forall|i: int| 0 <= i < txs.len() ==> !(#[trigger] txs[i]).is_uniswap_swap,
    ensures
        first_swap(txs) is None,
{
    if exists|v: int| is_first_swap(txs, v) {
        let v = choose|v: int| is_first_swap(txs, v);
        assert(txs[v].is_uniswap_swap);
    }
}

/// The tie-break makes the nearest candidate unique, so `nearest` names it.
pub proof fn lemma_nearest_is(txs: Seq<Transaction>, reference: Transaction, d: Direction, k: int)
    requires
        is_nearest(txs, reference, d, k),
    ensures
        nearest(txs, reference, d) == Some(k),
{
    let w = choose|w: int| is_nearest(txs, reference, d, w);
    assert(is_nearest(txs, reference, d, w));
    if w < k {
        assert(is_candidate(txs[w], reference, d));
        assert(is_candidate(txs[k], reference, d));
    } else if k < w {
        assert(is_candidate(txs[k], reference, d));
        assert(is_candidate(txs[w], reference, d));
    }
}

/// Without candidates there is nothing to match.
pub proof fn lemma_no_candidate(txs: Seq<Transaction>, reference: Transaction, d: Direction)
    requires
        forall|i: int| 0 <= i < txs.len() ==> !is_candidate(#[trigger] txs[i], reference, d),
    ensures
        nearest(txs, reference, d) is None,
{
    if exists|k: int| is_nearest(txs, reference, d, k) {
        let k = choose|k: int| is_nearest(txs, reference, d, k);
        assert(is_candidate(txs[k], reference, d));
    }
}

/// Finds the victim: the first transaction, in input order, flagged as a swap.
pub fn find_uniswap_swap(transactions: &[Transaction]) -> (r: Option<usize>)
    ensures
        r is None <==> forall|i: int|
            0 <= i < transactions@.len() ==> !(#[trigger] transactions@[i]).is_uniswap_swap,
        r matches Some(v) ==> is_first_swap(transactions@, v as int),
{
    let mut i: usize = 0;
    while i < transactions.len()
        invariant
            i <= transactions@.len(),
            forall|j: int| 0 <= j < i ==> !(#[trigger] transactions@[j]).is_uniswap_swap,
        decreases transactions@.len() - i,
    {
        if transactions[i].is_uniswap_swap {
            return Some(i);
        }
        i = i + 1;
    }
    None
}

/// Seconds from `victim` to `tx` in `direction`, or `None` when `tx` lies on
/// the other side of `victim`.
fn gap_towards(tx: &Transaction, victim: &Transaction, direction: Direction) -> (r: Option<u64>)
    ensures
        r is Some <==> on_side(*tx, *victim, direction),
        r matches Some(g) ==> g == gap(*tx, *victim, direction),
{
    match direction {
        Direction::Before => {
            if tx.timestamp <= victim.timestamp {
                Some(victim.timestamp - tx.timestamp)
            } else {
                None
            }
        },
        Direction::After => {
            if tx.timestamp >= victim.timestamp {
                Some(tx.timestamp - victim.timestamp)
            } else {
                None
            }
        },
    }
}

/// Finds the transaction closest in time to `victim` on side `direction` that
/// talks to the same contract and is not `victim` itself (by hash).
///
/// Transactions on the wrong side of `victim` are never candidates; among
/// candidates at the same distance the first in input order is taken.
pub fn find_matching_tx(transactions: &[Transaction], victim: &Transaction, direction: Direction) -> (r: Option<usize>)
    ensures
        r is Some <==> exists|i: int|
            0 <= i < transactions@.len() && is_candidate(#[trigger] transactions@[i], *victim, direction),
        r matches Some(k) ==> is_nearest(transactions@, *victim, direction, k as int),
        r matches Some(k) ==> on_side(transactions@[k as int], *victim, direction),
{
    let mut best: Option<usize> = None;
    let mut best_gap: u64 = 0;
    let mut i: usize = 0;
    while i < transactions.len()
        invariant
            i <= transactions@.len(),
            best is None ==> forall|j: int|
                0 <= j < i ==> !is_candidate(#[trigger] transactions@[j], *victim, direction),
            best matches Some(k) ==> {
                &&& k < i
                &&& is_candidate(transactions@[k as int], *victim, direction)
                &&& best_gap == gap(transactions@[k as int], *victim, direction)
                &&& forall|j: int|
                    0 <= j < i && is_candidate(#[trigger] transactions@[j], *victim, direction)
                        ==> best_gap <= gap(transactions@[j], *victim, direction)
                &&& forall|j: int|
                    0 <= j < k && is_candidate(#[trigger] transactions@[j], *victim, direction)
                        ==> best_gap < gap(transactions@[j], *victim, direction)
            },
        decreases transactions@.len() - i,
    {
        let tx = &transactions[i];
        if tx.to == victim.to && !(tx.hash == victim.hash) {
            if let Some(g) = gap_towards(tx, victim, direction) {
                let closer = match best {
                    None => true,
                    Some(_) => g < best_gap,
                };
                if closer {
                    best = Some(i);
                    best_gap = g;
                }
            }
        }
        i = i + 1;
    }
    proof {
        if let Some(k) = best {
            assert(is_candidate(transactions@[k as int], *victim, direction));
        }
    }
    best
}

} // verus!
