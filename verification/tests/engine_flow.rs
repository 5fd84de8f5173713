use cashu_broker::adaptor;
use cashu_broker::engine::{resolve_client_key, retry_backoff_ms};
use cashu_broker::broker::get_liquidity_status;
use cashu_broker::engine::SwapCoordinator;
use cashu_broker::errors::BrokerError;
use cashu_broker::ledger::LiquidityManager;
use cashu_broker::types::{BrokerConfig, MintConfig, SwapRequest, SwapStatus};

const MINT_A: &str = "http://localhost:3338";
const MINT_B: &str = "http://localhost:3339";

fn two_mints() -> Vec<MintConfig> {
    vec![
        MintConfig {
            mint_url: MINT_A.to_string(),
            name: "Mint A".to_string(),
            unit: "sat".to_string(),
        },
        MintConfig {
            mint_url: MINT_B.to_string(),
            name: "Mint B".to_string(),
            unit: "sat".to_string(),
        },
    ]
}

fn test_config() -> BrokerConfig {
    BrokerConfig { mints: two_mints(), ..BrokerConfig::default() }
}

fn request(from: &str, to: &str, amount: u64) -> SwapRequest {
    SwapRequest {
        client_id: None,
        from_mint: from.to_string(),
        to_mint: to.to_string(),
        amount,
        client_public_key: None,
    }
}

fn funded_pair() -> (SwapCoordinator, LiquidityManager) {
    let mut ledger = LiquidityManager::new(&two_mints());
    ledger.deposit(&MINT_A.to_string(), 100, None, 0).unwrap();
    ledger.deposit(&MINT_B.to_string(), 100, None, 0).unwrap();
    (SwapCoordinator::new(test_config()), ledger)
}

fn client_keypair() -> (Vec<u8>, Vec<u8>) {
    let sk = adaptor::random_scalar();
    let pk = adaptor::point_from_secret(&sk).unwrap();
    (sk, pk)
}

#[test]
fn test_swap_coordinator_creation() {
    let coordinator = SwapCoordinator::new(test_config());
    assert!(coordinator.quotes.is_empty());
    assert!(coordinator.executions.is_empty());
}

#[test]
fn happy_path_swap_settles_both_mints() {
    let (mut c, mut l) = funded_pair();
    let q = c.create_quote(&request(MINT_A, MINT_B, 8), &mut l, 1000).unwrap();
    assert_eq!(q.fee, 1);
    assert_eq!(q.output_amount, 7);
    assert_eq!(q.input_amount, 8);
    assert!(matches!(q.status, SwapStatus::Pending));
    assert_eq!(q.quote_id.len(), 32);
    assert_eq!(q.expires_at, 1300);
    assert_eq!(l.get_reserved(&MINT_B.to_string()), 7);
    assert_eq!(l.get_balance(&MINT_B.to_string()), 93);

    let (_csk, cpk) = client_keypair();
    let action = c.prepare_swap(&q.quote_id, &cpk, 1010).unwrap();
    assert_eq!(action.mint_url, MINT_B);
    assert_eq!(action.amount, 7);
    assert_eq!(action.lock_pubkey.len(), 33);
    // The lock key is the client key tweaked by the adaptor point, never the
    // bare client key.
    assert_ne!(action.lock_pubkey, cpk);
    c.prepare_swap_finish(&q.quote_id, true, vec![1, 2, 3], &mut l, 1011).unwrap();
    assert!(matches!(c.get_quote(&q.quote_id).unwrap().status, SwapStatus::Accepted));

    let complete = c
        .complete_swap_begin(&q.quote_id, &vec![8], true, 1020)
        .unwrap();
    assert_eq!(complete.mint_url, MINT_A);
    assert_eq!(complete.amount, 8);
    assert_eq!(complete.spend_key.len(), 32);
    c.complete_swap_finish(&q.quote_id, true, &mut l, 1021).unwrap();

    assert!(matches!(c.get_quote(&q.quote_id).unwrap().status, SwapStatus::Completed));
    assert_eq!(l.get_balance(&MINT_A.to_string()), 108);
    assert_eq!(l.get_balance(&MINT_B.to_string()), 93);
    assert_eq!(l.get_reserved(&MINT_B.to_string()), 0);
    assert_eq!(c.executions.len(), 1);
    assert!(c.executions[0].client_swap_complete);
    assert!(c.executions[0].broker_swap_complete);
}

#[test]
fn insufficient_liquidity_reports_shortfall() {
    let mut l = LiquidityManager::new(&two_mints());
    l.deposit(&MINT_B.to_string(), 5, None, 0).unwrap();
    let mut c = SwapCoordinator::new(test_config());
    match c.create_quote(&request(MINT_A, MINT_B, 8), &mut l, 1000) {
        Err(BrokerError::InsufficientLiquidity { mint_url, needed, available }) => {
            assert_eq!(mint_url, MINT_B);
            assert_eq!(needed, 7);
            assert_eq!(available, 5);
        },
        _ => panic!("expected InsufficientLiquidity"),
    }
    assert!(c.quotes.is_empty());
    assert_eq!(l.get_balance(&MINT_B.to_string()), 5);
}

#[test]
fn test_request_quote_same_mint_error() {
    let (mut c, mut l) = funded_pair();
    match c.create_quote(&request(MINT_A, MINT_A, 10), &mut l, 1000) {
        Err(BrokerError::SameMintSwap) => {},
        _ => panic!("expected SameMintSwap"),
    }
    // The ledger is untouched.
    assert_eq!(l.get_balance(&MINT_A.to_string()), 100);
    assert_eq!(l.get_reserved(&MINT_A.to_string()), 0);
}

#[test]
fn test_request_quote_invalid_amount() {
    let (mut c, mut l) = funded_pair();
    match c.create_quote(&request(MINT_A, MINT_B, 0), &mut l, 1000) {
        Err(BrokerError::AmountTooLow { amount, min }) => {
            assert_eq!(amount, 0);
            assert_eq!(min, 1);
        },
        _ => panic!("expected AmountTooLow"),
    }
    match c.create_quote(&request(MINT_A, MINT_B, 20_000), &mut l, 1000) {
        Err(BrokerError::AmountTooHigh { amount, max }) => {
            assert_eq!(amount, 20_000);
            assert_eq!(max, 10_000);
        },
        _ => panic!("expected AmountTooHigh"),
    }
}

#[test]
fn test_request_quote_unsupported_mint() {
    let (mut c, mut l) = funded_pair();
    match c.create_quote(&request("http://unknown", MINT_B, 10), &mut l, 1000) {
        Err(BrokerError::UnsupportedMint(u)) => assert_eq!(u, "http://unknown"),
        _ => panic!("expected UnsupportedMint"),
    }
}

#[test]
fn test_get_nonexistent_quote() {
    let c = SwapCoordinator::new(test_config());
    assert!(c.get_quote(&"deadbeefdeadbeefdeadbeefdeadbeef".to_string()).is_none());
}

#[test]
fn expiry_reaper_releases_reservation() {
    let (mut c, mut l) = funded_pair();
    let q = c.create_quote(&request(MINT_A, MINT_B, 8), &mut l, 1000).unwrap();
    assert_eq!(l.get_reserved(&MINT_B.to_string()), 7);
    // Not yet due one second before expiry.
    assert_eq!(c.reap_expired(&mut l, q.expires_at), 0);
    assert!(matches!(c.get_quote(&q.quote_id).unwrap().status, SwapStatus::Pending));
    // One reaper pass after expiry reaps it and restores the balance.
    assert_eq!(c.reap_expired(&mut l, q.expires_at + 1), 1);
    assert!(matches!(c.get_quote(&q.quote_id).unwrap().status, SwapStatus::Expired));
    assert_eq!(l.get_reserved(&MINT_B.to_string()), 0);
    assert_eq!(l.get_balance(&MINT_B.to_string()), 100);
    // A second pass finds nothing.
    assert_eq!(c.reap_expired(&mut l, q.expires_at + 2), 0);
}

#[test]
fn invalid_witness_leaves_quote_accepted_and_retry_succeeds() {
    let (mut c, mut l) = funded_pair();
    let q = c.create_quote(&request(MINT_A, MINT_B, 8), &mut l, 1000).unwrap();
    let (_csk, cpk) = client_keypair();
    c.prepare_swap(&q.quote_id, &cpk, 1001).unwrap();
    c.prepare_swap_finish(&q.quote_id, true, vec![], &mut l, 1002).unwrap();

    // A tampered witness is rejected and the quote stays accepted.
    match c.complete_swap_begin(&q.quote_id, &vec![8], false, 1003) {
        Err(BrokerError::InvalidWitness) => {},
        _ => panic!("expected InvalidWitness"),
    }
    assert!(matches!(c.get_quote(&q.quote_id).unwrap().status, SwapStatus::Accepted));

    // Proofs that do not sum to the quoted input are rejected too.
    match c.complete_swap_begin(&q.quote_id, &vec![4, 3], true, 1003) {
        Err(BrokerError::AmountMismatch { expected, actual }) => {
            assert_eq!(expected, 8);
            assert_eq!(actual, 7);
        },
        _ => panic!("expected AmountMismatch"),
    }

    // The same call with a correct witness then completes.
    c.complete_swap_begin(&q.quote_id, &vec![4, 4], true, 1004).unwrap();
    c.complete_swap_finish(&q.quote_id, true, &mut l, 1005).unwrap();
    assert!(matches!(c.get_quote(&q.quote_id).unwrap().status, SwapStatus::Completed));
}

#[test]
fn status_never_steps_backwards() {
    let (mut c, mut l) = funded_pair();
    let q = c.create_quote(&request(MINT_A, MINT_B, 8), &mut l, 1000).unwrap();
    let (_csk, cpk) = client_keypair();
    c.prepare_swap(&q.quote_id, &cpk, 1001).unwrap();
    c.prepare_swap_finish(&q.quote_id, true, vec![], &mut l, 1002).unwrap();

    // Accepting again is rejected: the quote has left Pending for good.
    assert!(c.prepare_swap(&q.quote_id, &cpk, 1003).is_err());
    assert!(matches!(c.get_quote(&q.quote_id).unwrap().status, SwapStatus::Accepted));

    c.complete_swap_begin(&q.quote_id, &vec![8], true, 1004).unwrap();
    c.complete_swap_finish(&q.quote_id, true, &mut l, 1005).unwrap();
    assert!(matches!(c.get_quote(&q.quote_id).unwrap().status, SwapStatus::Completed));

    // Completed is terminal: further transitions are refused and the status
    // stays where it is.
    assert!(c.complete_swap_finish(&q.quote_id, true, &mut l, 1006).is_err());
    assert!(c.prepare_swap_finish(&q.quote_id, false, vec![], &mut l, 1007).is_err());
    assert!(matches!(c.get_quote(&q.quote_id).unwrap().status, SwapStatus::Completed));
    // The reaper does not touch terminal quotes either.
    assert_eq!(c.reap_expired(&mut l, u64::MAX), 0);
    assert!(matches!(c.get_quote(&q.quote_id).unwrap().status, SwapStatus::Completed));
}

#[test]
fn reserved_balance_tracks_open_quotes() {
    let (mut c, mut l) = funded_pair();
    let q1 = c.create_quote(&request(MINT_A, MINT_B, 8), &mut l, 1000).unwrap();
    let q2 = c.create_quote(&request(MINT_A, MINT_B, 10), &mut l, 1000).unwrap();
    // Two open quotes: 7 + 9 reserved on the target mint.
    assert_eq!(l.get_reserved(&MINT_B.to_string()), 16);

    // Completing one leaves only the other's output reserved.
    let (_csk, cpk) = client_keypair();
    c.prepare_swap(&q1.quote_id, &cpk, 1001).unwrap();
    c.prepare_swap_finish(&q1.quote_id, true, vec![], &mut l, 1002).unwrap();
    c.complete_swap_begin(&q1.quote_id, &vec![8], true, 1003).unwrap();
    c.complete_swap_finish(&q1.quote_id, true, &mut l, 1004).unwrap();
    assert_eq!(l.get_reserved(&MINT_B.to_string()), 9);

    // Failing the mint call on the other releases the rest.
    c.prepare_swap(&q2.quote_id, &cpk, 1005).unwrap();
    c.prepare_swap_finish(&q2.quote_id, false, vec![], &mut l, 1006).unwrap();
    assert!(matches!(c.get_quote(&q2.quote_id).unwrap().status, SwapStatus::Failed));
    assert_eq!(l.get_reserved(&MINT_B.to_string()), 0);
}

#[test]
fn accept_paths_reject_bad_states() {
    let (mut c, mut l) = funded_pair();
    let (_csk, cpk) = client_keypair();

    // Unknown quote.
    match c.prepare_swap(&"0123456789abcdef0123456789abcdef".to_string(), &cpk, 1000) {
        Err(BrokerError::QuoteNotFound(id)) => {
            assert_eq!(id, "0123456789abcdef0123456789abcdef")
        },
        _ => panic!("expected QuoteNotFound"),
    }

    let q = c.create_quote(&request(MINT_A, MINT_B, 8), &mut l, 1000).unwrap();

    // Expired quote.
    match c.prepare_swap(&q.quote_id, &cpk, q.expires_at + 1) {
        Err(BrokerError::QuoteExpired(id)) => assert_eq!(id, q.quote_id),
        _ => panic!("expected QuoteExpired"),
    }

    // A client key that is not a curve point.
    match c.prepare_swap(&q.quote_id, &vec![0u8; 33], 1001) {
        Err(BrokerError::AdaptorSignature(_)) => {},
        _ => panic!("expected AdaptorSignature"),
    }

    // Completing a quote that was never accepted.
    assert!(c.complete_swap_begin(&q.quote_id, &vec![8], true, 1001).is_err());
}

#[test]
fn quote_ids_are_distinct_across_quotes() {
    let (mut c, mut l) = funded_pair();
    let q1 = c.create_quote(&request(MINT_A, MINT_B, 8), &mut l, 1000).unwrap();
    let q2 = c.create_quote(&request(MINT_A, MINT_B, 9), &mut l, 1000).unwrap();
    let q3 = c.create_quote(&request(MINT_B, MINT_A, 10), &mut l, 1000).unwrap();
    assert_ne!(q1.quote_id, q2.quote_id);
    assert_ne!(q1.quote_id, q3.quote_id);
    assert_ne!(q2.quote_id, q3.quote_id);
    // Distinct key material per quote.
    assert_ne!(q1.broker_public_key, q2.broker_public_key);
    assert_ne!(q1.adaptor_point, q2.adaptor_point);
}

#[test]
fn client_key_resolution_rules() {
    let a: Vec<u8> = vec![2, 1, 1];
    let b: Vec<u8> = vec![2, 9, 9];
    // Neither side has a key: rejected.
    assert!(matches!(
        resolve_client_key(None, None),
        Err(BrokerError::InvalidSwapRequest(_))
    ));
    // Only one side has a key: that one binds.
    assert_eq!(resolve_client_key(None, Some(a.clone())).unwrap(), a);
    assert_eq!(resolve_client_key(Some(a.clone()), None).unwrap(), a);
    // Both sides agree: fine; they differ: rejected.
    assert_eq!(resolve_client_key(Some(a.clone()), Some(a.clone())).unwrap(), a);
    assert!(matches!(
        resolve_client_key(Some(a), Some(b)),
        Err(BrokerError::InvalidSwapRequest(_))
    ));
}

#[test]
fn retry_schedule_doubles_and_gives_up() {
    // Exponential from 200 ms, five attempts.
    assert_eq!(retry_backoff_ms(0, 600_000), Some(200));
    assert_eq!(retry_backoff_ms(1, 600_000), Some(400));
    assert_eq!(retry_backoff_ms(2, 600_000), Some(800));
    assert_eq!(retry_backoff_ms(3, 600_000), Some(1600));
    assert_eq!(retry_backoff_ms(4, 600_000), Some(3200));
    assert_eq!(retry_backoff_ms(5, 600_000), None);
    // Capped by the time left to expiry; none left means give up.
    assert_eq!(retry_backoff_ms(4, 1000), Some(1000));
    assert_eq!(retry_backoff_ms(0, 0), None);
}

#[test]
fn reclaim_lists_accepted_quotes_that_died() {
    let (mut c, mut l) = funded_pair();
    let (_csk, cpk) = client_keypair();

    // Quote one: accepted, then reaped — its minted tokens need reclaiming.
    let q1 = c.create_quote(&request(MINT_A, MINT_B, 8), &mut l, 1000).unwrap();
    c.prepare_swap(&q1.quote_id, &cpk, 1001).unwrap();
    c.prepare_swap_finish(&q1.quote_id, true, vec![], &mut l, 1002).unwrap();
    c.reap_expired(&mut l, q1.expires_at + 1);

    // Quote two: completed — nothing to reclaim.
    let q2 = c.create_quote(&request(MINT_A, MINT_B, 10), &mut l, 2000).unwrap();
    c.prepare_swap(&q2.quote_id, &cpk, 2001).unwrap();
    c.prepare_swap_finish(&q2.quote_id, true, vec![], &mut l, 2002).unwrap();
    c.complete_swap_begin(&q2.quote_id, &vec![10], true, 2003).unwrap();
    c.complete_swap_finish(&q2.quote_id, true, &mut l, 2004).unwrap();

    // Quote three: failed before the mint ever minted — nothing to reclaim.
    let q3 = c.create_quote(&request(MINT_A, MINT_B, 12), &mut l, 3000).unwrap();
    c.prepare_swap(&q3.quote_id, &cpk, 3001).unwrap();
    c.prepare_swap_finish(&q3.quote_id, false, vec![], &mut l, 3002).unwrap();

    let candidates = c.reclaim_candidates();
    assert_eq!(candidates.len(), 1);
    assert_eq!(candidates[0].quote_id, q1.quote_id);
    assert_eq!(candidates[0].mint_url, MINT_B);
    assert_eq!(candidates[0].amount, 7);
}

#[test]
fn test_broker_creation() {
    let config = test_config();
    let ledger = LiquidityManager::new(&config.mints);
    let status = get_liquidity_status(&config, &ledger);
    assert_eq!(status.mints.len(), 2);
    assert_eq!(status.total_balance, 0);
}

#[test]
fn test_get_liquidity() {
    let config = test_config();
    let mut ledger = LiquidityManager::new(&config.mints);
    ledger.deposit(&MINT_A.to_string(), 40, None, 0).unwrap();
    ledger.deposit(&MINT_B.to_string(), 2, None, 0).unwrap();
    let status = get_liquidity_status(&config, &ledger);
    assert_eq!(status.mints[0].balance, 40);
    assert_eq!(status.mints[0].mint_url, MINT_A);
    assert_eq!(status.mints[0].name, "Mint A");
    assert_eq!(status.mints[1].balance, 2);
    assert_eq!(status.total_balance, 42);
}
