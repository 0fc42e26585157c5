use vstd::prelude::*;

use crate::matcher::{
    find_matching_tx, find_uniswap_swap, first_swap, is_first_swap, lemma_first_swap_is,
    lemma_nearest_is, lemma_no_candidate, lemma_no_swap, nearest,
};
use crate::transaction::{is_candidate, Direction, Transaction};

verus! {

/// Frontrun and backrun must lie strictly closer than this many seconds apart.
pub const TIME_WINDOW_SECS: u64 = 120;

/// A victim is exploitable when its slippage tolerance exceeds this many
/// billionths, that is 5%.
pub const SLIPPAGE_THRESHOLD: u64 = 50_000_000;

/// A sandwich needs a frontrun, a victim and a backrun.
pub const MIN_CLUSTER_LEN: usize = 3;

pub open spec fn abs_diff(a: u64, b: u64) -> int {
    if a >= b {
        a - b
    } else {
        b - a
    }
}

/// Both transactions are attributed to the same address.
pub open spec fn same_attacker(front: Transaction, back: Transaction) -> bool {
    front.sender@ == back.sender@
}

/// The two transactions lie less than `TIME_WINDOW_SECS` apart, in either order.
pub open spec fn within_window(front: Transaction, back: Transaction) -> bool {
    abs_diff(front.timestamp, back.timestamp) < TIME_WINDOW_SECS
}

/// The victim states a slippage tolerance above `SLIPPAGE_THRESHOLD`.
pub open spec fn exploitable(victim: Transaction) -> bool {
    match victim.slippage_tolerance {
        Some(s) => s > SLIPPAGE_THRESHOLD,
        None => false,
    }
}

/// The three conditions of a sandwich on a matched frontrun, backrun and victim.
pub open spec fn is_sandwich(front: Transaction, back: Transaction, victim: Transaction) -> bool {
    &&& same_attacker(front, back)
    &&& within_window(front, back)
    &&& exploitable(victim)
}

/// The verdict on a cluster: it holds at least `MIN_CLUSTER_LEN` transactions,
/// has a victim (its first swap), a nearest match on each side of the victim,
/// and those three form a sandwich.
pub open spec fn sandwich_detected(txs: Seq<Transaction>) -> bool {
    &&& txs.len() >= MIN_CLUSTER_LEN
    &&& match first_swap(txs) {
        Some(v) => match (nearest(txs, txs[v], Direction::Before), nearest(txs, txs[v], Direction::After)) {
            (Some(f), Some(b)) => is_sandwich(txs[f], txs[b], txs[v]),
            _ => false,
        },
        None => false,
    }
}

/// Whether `front` and `back` are attributed to the same address.
pub fn same_attacker_check(front: &Transaction, back: &Transaction) -> (r: bool)
    ensures
        r == same_attacker(*front, *back),
{
    front.sender == back.sender
}

/// Whether `front` and `back` lie less than `TIME_WINDOW_SECS` apart, in either order.
pub fn time_within_limit(front: &Transaction, back: &Transaction) -> (r: bool)
    ensures
        r == within_window(*front, *back),
        r == within_window(*back, *front),
{
    if back.timestamp > front.timestamp {
        back.timestamp - front.timestamp < TIME_WINDOW_SECS
    } else {
        front.timestamp - back.timestamp < TIME_WINDOW_SECS
    }
}

/// Whether `victim` accepts a slippage above `SLIPPAGE_THRESHOLD`.
pub fn high_slippage_victim(victim: &Transaction) -> (r: bool)
    ensures
        r == exploitable(*victim),
{
    match victim.slippage_tolerance {
        Some(s) => s > SLIPPAGE_THRESHOLD,
        None => false,
    }
}

/// Decides whether `transactions` show a sandwich attack: the first swap is
/// the victim, the nearest transactions to the same contract before and after
/// it are the frontrun and backrun, and those come from one attacker, lie
/// within the time window, around a victim with a high slippage tolerance.
pub fn detect_mev_sandwich(transactions: &[Transaction]) -> (r: bool)
    ensures
        r == sandwich_detected(transactions@),
        transactions@.len() < MIN_CLUSTER_LEN ==> !r,
        (forall|i: int| 0 <= i < transactions@.len() ==> !(#[trigger] transactions@[i]).is_uniswap_swap)
            ==> !r,
{
    if transactions.len() < MIN_CLUSTER_LEN {
        return false;
    }
    let v = match find_uniswap_swap(transactions) {
        Some(v) => v,
        None => {
            proof {
                lemma_no_swap(transactions@);
            }
            return false;
        },
    };
    proof {
        lemma_first_swap_is(transactions@, v as int);
    }
    let victim = &transactions[v];
    let frontrun = find_matching_tx(transactions, victim, Direction::Before);
    let backrun = find_matching_tx(transactions, victim, Direction::After);
    proof {
        match frontrun {
            Some(f) => lemma_nearest_is(transactions@, *victim, Direction::Before, f as int),
            None => lemma_no_candidate(transactions@, *victim, Direction::Before),
        }
        match backrun {
            Some(b) => lemma_nearest_is(transactions@, *victim, Direction::After, b as int),
            None => lemma_no_candidate(transactions@, *victim, Direction::After),
        }
    }
    match (frontrun, backrun) {
        (Some(f), Some(b)) => {
            let fr = &transactions[f];
            let br = &transactions[b];
            same_attacker_check(fr, br) && time_within_limit(fr, br) && high_slippage_victim(victim)
        },
        _ => false,
    }
}

/// A victim that shares its contract with no other transaction of the cluster
/// has no frontrun or backrun, so no sandwich is detected.
pub proof fn lemma_lonely_victim_not_detected(txs: Seq<Transaction>, v: int)
    requires
        is_first_swap(txs, v),
        forall|i: int| 0 <= i < txs.len() && i != v ==> (#[trigger] txs[i]).to@ != txs[v].to@,
    ensures
        !sandwich_detected(txs),
{
    lemma_first_swap_is(txs, v);
    assert forall|i: int| 0 <= i < txs.len() implies !is_candidate(#[trigger] txs[i], txs[v], Direction::Before) by {
        if i == v {
            assert(txs[i].hash@ == txs[v].hash@);
        }
    }
    lemma_no_candidate(txs, txs[v], Direction::Before);
}

/// The time window does not depend on which of the two transactions is the
/// frontrun and which the backrun.
pub proof fn lemma_window_symmetric(front: Transaction, back: Transaction)
    ensures
        within_window(front, back) == within_window(back, front),
{
}

} // verus!
