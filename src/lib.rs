//! Detection of sandwich attacks in a cluster of observed transactions.

pub mod detector;
pub mod matcher;
pub mod transaction;

pub use detector::detect_mev_sandwich;
pub use matcher::{find_matching_tx, find_uniswap_swap};
pub use transaction::{Direction, Transaction, SLIPPAGE_ONE};
