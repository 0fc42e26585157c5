use mev_engine::detector::{high_slippage_victim, same_attacker_check, time_within_limit};
use mev_engine::{detect_mev_sandwich, find_matching_tx, find_uniswap_swap, Direction, Transaction, SLIPPAGE_ONE};

fn tx(hash: &str, to: &str, sender: &str, timestamp: u64, swap: bool, slippage: Option<u64>) -> Transaction {
    Transaction {
        hash: hash.to_string(),
        from: sender.to_string(),
        to: to.to_string(),
        value: "1000000000000000000".to_string(),
        gas_price: "20000000000".to_string(),
        gas_limit: "21000".to_string(),
        input: "0x".to_string(),
        timestamp,
        block_number: 17_000_000,
        sender: sender.to_string(),
        slippage_tolerance: slippage,
        is_uniswap_swap: swap,
        token_in: None,
        token_out: None,
        amount_in: None,
        amount_out_min: None,
    }
}

/// Slippage of `percent` percent in billionths.
fn pct(percent: u64) -> Option<u64> {
    Some(percent * SLIPPAGE_ONE / 100)
}

fn sandwich(victim_slippage: Option<u64>, back_sender: &str, back_ts: u64) -> Vec<Transaction> {
    vec![
        tx("0xf", "0xP", "0xA", 995, false, None),
        tx("0xv", "0xP", "0xV", 1000, true, victim_slippage),
        tx("0xb", "0xP", back_sender, back_ts, false, None),
    ]
}

#[test]
fn positive_sandwich_detected() {
    assert!(detect_mev_sandwich(&sandwich(pct(10), "0xA", 1010)));
}

#[test]
fn low_slippage_not_detected() {
    assert!(!detect_mev_sandwich(&sandwich(pct(2), "0xA", 1010)));
}

#[test]
fn missing_slippage_not_detected() {
    assert!(!detect_mev_sandwich(&sandwich(None, "0xA", 1010)));
}

#[test]
fn slippage_at_threshold_not_detected() {
    assert!(!detect_mev_sandwich(&sandwich(pct(5), "0xA", 1010)));
    assert!(detect_mev_sandwich(&sandwich(Some(50_000_001), "0xA", 1010)));
}

#[test]
fn different_attackers_not_detected() {
    assert!(!detect_mev_sandwich(&sandwich(pct(10), "0xB", 1010)));
}

#[test]
fn time_gap_not_detected() {
    assert!(!detect_mev_sandwich(&sandwich(pct(10), "0xA", 1200)));
}

#[test]
fn time_gap_edge() {
    // 995 + 119 is inside the window, 995 + 120 is not.
    assert!(detect_mev_sandwich(&sandwich(pct(10), "0xA", 1114)));
    assert!(!detect_mev_sandwich(&sandwich(pct(10), "0xA", 1115)));
}

#[test]
fn short_clusters_not_detected() {
    let full = sandwich(pct(10), "0xA", 1010);
    assert!(!detect_mev_sandwich(&[]));
    assert!(!detect_mev_sandwich(&full[..1]));
    assert!(!detect_mev_sandwich(&full[..2]));
}

#[test]
fn no_swap_not_detected() {
    let mut txs = sandwich(pct(10), "0xA", 1010);
    txs[1].is_uniswap_swap = false;
    assert!(!detect_mev_sandwich(&txs));
    assert_eq!(find_uniswap_swap(&txs), None);
}

#[test]
fn lonely_victim_not_detected() {
    let txs = vec![
        tx("0xf", "0xQ", "0xA", 995, false, None),
        tx("0xv", "0xP", "0xV", 1000, true, pct(10)),
        tx("0xb", "0xR", "0xA", 1010, false, None),
    ];
    assert!(!detect_mev_sandwich(&txs));
    assert_eq!(find_matching_tx(&txs, &txs[1], Direction::Before), None);
    assert_eq!(find_matching_tx(&txs, &txs[1], Direction::After), None);
}

#[test]
fn victim_is_first_swap() {
    let txs = vec![
        tx("0x1", "0xP", "0xA", 990, false, None),
        tx("0x2", "0xP", "0xV", 1000, true, pct(10)),
        tx("0x3", "0xP", "0xW", 1005, true, pct(1)),
    ];
    assert_eq!(find_uniswap_swap(&txs), Some(1));
}

#[test]
fn matcher_picks_nearest_on_each_side() {
    let txs = vec![
        tx("0x1", "0xP", "0xA", 900, false, None),
        tx("0x2", "0xP", "0xA", 990, false, None),
        tx("0xv", "0xP", "0xV", 1000, true, pct(10)),
        tx("0x3", "0xP", "0xA", 1050, false, None),
        tx("0x4", "0xP", "0xA", 1020, false, None),
        tx("0x5", "0xQ", "0xA", 1001, false, None),
    ];
    assert_eq!(find_matching_tx(&txs, &txs[2], Direction::Before), Some(1));
    assert_eq!(find_matching_tx(&txs, &txs[2], Direction::After), Some(4));
}

#[test]
fn matcher_skips_wrong_side() {
    // Every other transaction comes later than the victim: nothing before it.
    let txs = vec![
        tx("0xv", "0xP", "0xV", 1000, true, pct(10)),
        tx("0x1", "0xP", "0xA", 1030, false, None),
        tx("0x2", "0xP", "0xA", 1010, false, None),
    ];
    assert_eq!(find_matching_tx(&txs, &txs[0], Direction::Before), None);
    assert_eq!(find_matching_tx(&txs, &txs[0], Direction::After), Some(2));
    assert!(!detect_mev_sandwich(&txs));
}

#[test]
fn matcher_direction_consistent() {
    let txs = vec![
        tx("0x1", "0xP", "0xA", 1003, false, None),
        tx("0xv", "0xP", "0xV", 1000, true, pct(10)),
        tx("0x2", "0xP", "0xA", 998, false, None),
        tx("0x3", "0xP", "0xA", 1500, false, None),
        tx("0x4", "0xP", "0xA", 10, false, None),
    ];
    let before = find_matching_tx(&txs, &txs[1], Direction::Before).unwrap();
    let after = find_matching_tx(&txs, &txs[1], Direction::After).unwrap();
    assert_eq!(before, 2);
    assert_eq!(after, 0);
    assert!(txs[before].timestamp <= txs[1].timestamp);
    assert!(txs[after].timestamp >= txs[1].timestamp);
}

#[test]
fn matcher_tie_takes_first() {
    let txs = vec![
        tx("0x1", "0xP", "0xA", 995, false, None),
        tx("0x2", "0xP", "0xB", 995, false, None),
        tx("0xv", "0xP", "0xV", 1000, true, pct(10)),
        tx("0x3", "0xP", "0xA", 1005, false, None),
        tx("0x4", "0xP", "0xB", 1005, false, None),
    ];
    assert_eq!(find_matching_tx(&txs, &txs[2], Direction::Before), Some(0));
    assert_eq!(find_matching_tx(&txs, &txs[2], Direction::After), Some(3));
    assert!(detect_mev_sandwich(&txs));
}

#[test]
fn matcher_excludes_victim_hash() {
    // Same timestamp as the victim counts on both sides, the victim itself does not.
    let txs = vec![
        tx("0xv", "0xP", "0xV", 1000, true, pct(10)),
        tx("0x1", "0xP", "0xA", 1000, false, None),
    ];
    assert_eq!(find_matching_tx(&txs, &txs[0], Direction::Before), Some(1));
    assert_eq!(find_matching_tx(&txs, &txs[0], Direction::After), Some(1));
}

#[test]
fn time_window_symmetric() {
    let a = tx("0xf", "0xP", "0xA", 995, false, None);
    let b = tx("0xb", "0xP", "0xA", 1114, false, None);
    let c = tx("0xc", "0xP", "0xA", 1200, false, None);
    assert!(time_within_limit(&a, &b));
    assert!(time_within_limit(&b, &a));
    assert!(!time_within_limit(&a, &c));
    assert!(!time_within_limit(&c, &a));
}

#[test]
fn condition_checks() {
    let a = tx("0xf", "0xP", "0xA", 995, false, None);
    let b = tx("0xb", "0xP", "0xB", 1010, false, None);
    assert!(same_attacker_check(&a, &a));
    assert!(!same_attacker_check(&a, &b));
    assert!(high_slippage_victim(&tx("0xv", "0xP", "0xV", 1000, true, pct(10))));
    assert!(!high_slippage_victim(&tx("0xv", "0xP", "0xV", 1000, true, pct(5))));
    assert!(!high_slippage_victim(&tx("0xv", "0xP", "0xV", 1000, true, None)));
}
