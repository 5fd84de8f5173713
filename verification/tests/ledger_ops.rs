use cashu_broker::errors::BrokerError;
use cashu_broker::ledger::{select_proofs, EventKind, LiquidityManager};
use cashu_broker::types::MintConfig;

fn ledger_mints(urls: &[&str]) -> Vec<MintConfig> {
    urls.iter()
        .map(|u| MintConfig {
            mint_url: u.to_string(),
            name: u.to_string(),
            unit: "sat".to_string(),
        })
        .collect()
}

#[test]
fn test_liquidity_manager() {
    let manager = LiquidityManager::new(&ledger_mints(&[
        "http://localhost:3338",
        "http://localhost:3339",
    ]));
    assert_eq!(manager.get_balance(&"http://localhost:3338".to_string()), 0);
    assert_eq!(manager.get_balance(&"http://localhost:3339".to_string()), 0);
    assert_eq!(manager.get_balance(&"http://elsewhere".to_string()), 0);
}

#[test]
fn deposit_then_reserve_release() {
    let a = "http://a".to_string();
    let qid = "q1".to_string();
    let mut l = LiquidityManager::new(&ledger_mints(&["http://a"]));
    l.deposit(&a, 100, None, 1).unwrap();
    assert_eq!(l.get_balance(&a), 100);
    assert_eq!(l.get_reserved(&a), 0);

    l.reserve(&a, 30, &qid, 2).unwrap();
    assert_eq!(l.get_balance(&a), 70);
    assert_eq!(l.get_reserved(&a), 30);

    l.release(&a, 30, &qid, 3).unwrap();
    assert_eq!(l.get_balance(&a), 100);
    assert_eq!(l.get_reserved(&a), 0);

    assert_eq!(l.events.len(), 3);
    assert!(matches!(l.events[0].kind, EventKind::Deposit));
    assert!(matches!(l.events[1].kind, EventKind::Reserve));
    assert!(matches!(l.events[2].kind, EventKind::Release));
    assert_eq!(l.events[1].balance_after, 70);
    assert_eq!(l.events[2].balance_after, 100);
}

#[test]
fn reserve_fails_without_mutation_when_short() {
    let a = "http://a".to_string();
    let qid = "q1".to_string();
    let mut l = LiquidityManager::new(&ledger_mints(&["http://a"]));
    l.deposit(&a, 5, None, 1).unwrap();
    match l.reserve(&a, 8, &qid, 2) {
        Err(BrokerError::InsufficientLiquidity { mint_url, needed, available }) => {
            assert_eq!(mint_url, a);
            assert_eq!(needed, 8);
            assert_eq!(available, 5);
        },
        other => panic!("expected InsufficientLiquidity, got {:?}", other.is_ok()),
    }
    assert_eq!(l.get_balance(&a), 5);
    assert_eq!(l.get_reserved(&a), 0);
    // Only the deposit event is on the log.
    assert_eq!(l.events.len(), 1);
}

#[test]
fn reserve_on_unknown_mint_is_rejected() {
    let qid = "q1".to_string();
    let mut l = LiquidityManager::new(&ledger_mints(&["http://a"]));
    match l.reserve(&"http://nowhere".to_string(), 1, &qid, 1) {
        Err(BrokerError::UnsupportedMint(u)) => assert_eq!(u, "http://nowhere"),
        _ => panic!("expected UnsupportedMint"),
    }
}

#[test]
fn commit_settles_both_legs() {
    let a = "http://a".to_string();
    let b = "http://b".to_string();
    let qid = "q1".to_string();
    let mut l = LiquidityManager::new(&ledger_mints(&["http://a", "http://b"]));
    l.deposit(&a, 100, None, 1).unwrap();
    l.deposit(&b, 100, None, 1).unwrap();
    // A swap paying 8 on mint A for 7 on mint B.
    l.reserve(&b, 7, &qid, 2).unwrap();
    l.commit(&b, 7, &a, 8, &qid, 3).unwrap();
    assert_eq!(l.get_balance(&b), 93);
    assert_eq!(l.get_reserved(&b), 0);
    assert_eq!(l.get_balance(&a), 108);
    assert_eq!(l.get_reserved(&a), 0);
    let kinds: Vec<_> = l.events.iter().map(|e| e.kind).collect();
    assert!(matches!(kinds[kinds.len() - 2], EventKind::SwapOut));
    assert!(matches!(kinds[kinds.len() - 1], EventKind::SwapIn));
}

#[test]
fn contended_reserves_saturate_exactly() {
    // Of 20 reservations of 7 against 100, exactly 100 / 7 = 14 succeed.
    let a = "http://a".to_string();
    let mut l = LiquidityManager::new(&ledger_mints(&["http://a"]));
    l.deposit(&a, 100, None, 1).unwrap();
    let mut successes = 0;
    for i in 0..20 {
        let qid = format!("q{}", i);
        match l.reserve(&a, 7, &qid, 2) {
            Ok(()) => successes += 1,
            Err(BrokerError::InsufficientLiquidity { available, needed, .. }) => {
                assert_eq!(needed, 7);
                assert!(available < 7);
            },
            _ => panic!("unexpected error"),
        }
    }
    assert_eq!(successes, 14);
    assert_eq!(l.get_balance(&a), 100 - 14 * 7);
    assert_eq!(l.get_reserved(&a), 14 * 7);
}

#[test]
fn deposit_rejects_balance_overflow() {
    let a = "http://a".to_string();
    let mut l = LiquidityManager::new(&ledger_mints(&["http://a"]));
    l.deposit(&a, u64::MAX - 10, None, 1).unwrap();
    match l.deposit(&a, 11, None, 2) {
        Err(BrokerError::InvalidSwapRequest(_)) => {},
        _ => panic!("expected InvalidSwapRequest"),
    }
    // Nothing changed.
    assert_eq!(l.get_balance(&a), u64::MAX - 10);
    assert_eq!(l.events.len(), 1);
    // Filling exactly to the limit is fine.
    l.deposit(&a, 10, None, 3).unwrap();
    assert_eq!(l.get_balance(&a), u64::MAX);
}

#[test]
fn release_beyond_reservation_is_rejected() {
    let a = "http://a".to_string();
    let qid = "q1".to_string();
    let mut l = LiquidityManager::new(&ledger_mints(&["http://a"]));
    l.deposit(&a, 50, None, 1).unwrap();
    l.reserve(&a, 20, &qid, 2).unwrap();
    match l.release(&a, 21, &qid, 3) {
        Err(BrokerError::InvalidSwapRequest(_)) => {},
        _ => panic!("expected InvalidSwapRequest"),
    }
    assert_eq!(l.get_reserved(&a), 20);
    assert_eq!(l.get_balance(&a), 30);
}

#[test]
fn select_proofs_greedy_largest_first() {
    let m = "http://a".to_string();
    let amounts: Vec<u64> = vec![4, 64, 8, 32];
    let sel = select_proofs(&m, &amounts, 40).unwrap();
    assert_eq!(sel, vec![64]);

    let sel = select_proofs(&m, &amounts, 100).unwrap();
    assert_eq!(sel, vec![64, 32, 8]);

    // Covering everything takes every proof.
    let sel = select_proofs(&m, &amounts, 108).unwrap();
    assert_eq!(sel, vec![64, 32, 8, 4]);

    // Zero needs nothing.
    let sel = select_proofs(&m, &amounts, 0).unwrap();
    assert!(sel.is_empty());
}

#[test]
fn select_proofs_reports_shortfall() {
    let m = "http://a".to_string();
    let amounts: Vec<u64> = vec![4, 64, 8, 32];
    match select_proofs(&m, &amounts, 200) {
        Err(BrokerError::InsufficientLiquidity { mint_url, needed, available }) => {
            assert_eq!(mint_url, m);
            assert_eq!(needed, 200);
            assert_eq!(available, 108);
        },
        _ => panic!("expected InsufficientLiquidity"),
    }
}
