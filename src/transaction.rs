use vstd::prelude::*;

verus! {

/// Slippage tolerances are fixed-point fractions counted in billionths:
/// `SLIPPAGE_ONE` stands for 100%, so 0.01 (1%) is `10_000_000`.
pub const SLIPPAGE_ONE: u64 = 1_000_000_000;

/// One observed on-chain transaction.
///
/// Large quantities (value, gas, token amounts) are kept as the exact decimal
/// strings they arrived as; the detector only reads `to`, `hash`, `sender`,
/// `timestamp`, `slippage_tolerance` and `is_uniswap_swap`.
#[derive(Debug, Clone)]
pub struct Transaction {
    pub hash: String,
    pub from: String,
    /// Contract, router or pool the transaction talks to; the key on which
    /// transactions around a victim are matched.
    pub to: String,
    pub value: String,
    pub gas_price: String,
    pub gas_limit: String,
    pub input: String,
    /// Seconds since the unix epoch.
    pub timestamp: u64,
    /// Block holding the transaction, 0 while it is pending.
    pub block_number: u64,
    /// Address the transaction is attributed to when looking for an attacker.
    pub sender: String,
    /// Slippage the sender accepts, in billionths (see `SLIPPAGE_ONE`).
    pub slippage_tolerance: Option<u64>,
    /// Whether the caller classified the transaction as a DEX swap.
    pub is_uniswap_swap: bool,
    pub token_in: Option<String>,
    pub token_out: Option<String>,
    pub amount_in: Option<String>,
    pub amount_out_min: Option<String>,
}

/// Which side of a reference transaction a candidate must lie on.
#[derive(Debug, Clone, Copy, PartialEq, Eq, Structural)]
pub enum Direction {
    Before,
    After,
}

/// `t` lies on side `d` of `reference` in time (equal timestamps count for both sides).
pub open spec fn on_side(t: Transaction, reference: Transaction, d: Direction) -> bool {
    match d {
        Direction::Before => t.timestamp <= reference.timestamp,
        Direction::After => t.timestamp >= reference.timestamp,
    }
}

/// Seconds between `t` and `reference`, measured in direction `d`.
pub open spec fn gap(t: Transaction, reference: Transaction, d: Direction) -> int {
    match d {
        Direction::Before => reference.timestamp - t.timestamp,
        Direction::After => t.timestamp - reference.timestamp,
    }
}

/// `t` talks to the same contract as `reference`, is not `reference` itself,
/// and lies on side `d` of it.
pub open spec fn is_candidate(t: Transaction, reference: Transaction, d: Direction) -> bool {
    &&& t.to@ == reference.to@
    &&& t.hash@ != reference.hash@
    &&& on_side(t, reference, d)
}

} // verus!
