use cashu_broker::api::{compute_metrics, default_limit};
use cashu_broker::codec;
use cashu_broker::engine::SwapCoordinator;
use cashu_broker::errors::BrokerError;
use cashu_broker::ledger::LiquidityManager;
use cashu_broker::records::{make_quote_record, make_swap_record, QuoteRecord};
use cashu_broker::types::{BrokerConfig, MintConfig, SwapRequest, SwapStatus};

#[test]
fn hex_encoding_is_lowercase_two_digits_per_byte() {
    assert_eq!(codec::hex_encode(&vec![1, 2, 3, 15, 16]), "0102030f10");
    assert_eq!(codec::hex_encode(&vec![]), "");
    assert_eq!(codec::hex_encode(&vec![0xff, 0xab]), "ffab");
    // Cross-check against the crate itself.
    assert_eq!(codec::hex_encode(&vec![0xde, 0xad]), hex::encode(vec![0xde, 0xad]));
}

#[test]
fn quote_ids_are_32_hex_chars() {
    let a = codec::generate_quote_id();
    let b = codec::generate_quote_id();
    assert_eq!(a.len(), 32);
    assert!(a.chars().all(|c| c.is_ascii_hexdigit() && !c.is_uppercase()));
    assert_ne!(a, b);
}

#[test]
fn status_names_round_trip() {
    let all = [
        (SwapStatus::Pending, "pending"),
        (SwapStatus::Accepted, "accepted"),
        (SwapStatus::Completed, "completed"),
        (SwapStatus::Expired, "expired"),
        (SwapStatus::Failed, "failed"),
    ];
    for (st, name) in all {
        assert_eq!(st.as_str_name(), name);
        assert_eq!(SwapStatus::parse(&name.to_string()), Some(st));
        // Parsing is case-insensitive.
        assert_eq!(SwapStatus::parse(&name.to_uppercase()), Some(st));
    }
    assert_eq!(SwapStatus::parse(&"Pending".to_string()), Some(SwapStatus::Pending));
    assert_eq!(SwapStatus::parse(&"CoMpLeTeD".to_string()), Some(SwapStatus::Completed));
    assert_eq!(SwapStatus::parse(&"bogus".to_string()), None);
    assert_eq!(SwapStatus::parse(&"pending ".to_string()), None);
    assert_eq!(SwapStatus::parse(&"".to_string()), None);
}

#[test]
fn error_codes_and_http_statuses() {
    let e = BrokerError::InsufficientLiquidity {
        mint_url: "m".to_string(),
        needed: 7,
        available: 5,
    };
    assert_eq!(e.code(), "INSUFFICIENT_LIQUIDITY");
    assert_eq!(e.http_status(), 503);
    let e = BrokerError::QuoteNotFound("x".to_string());
    assert_eq!(e.code(), "QUOTE_NOT_FOUND");
    assert_eq!(e.http_status(), 404);
    let e = BrokerError::QuoteExpired("x".to_string());
    assert_eq!(e.code(), "QUOTE_EXPIRED");
    assert_eq!(e.http_status(), 400);
    let e = BrokerError::SameMintSwap;
    assert_eq!(e.code(), "BROKER_ERROR");
    assert_eq!(e.http_status(), 500);
}

#[test]
fn test_default_limit() {
    assert_eq!(default_limit(), 50);
}

fn record(status: &str, amount_in: i64, fee: i64) -> QuoteRecord {
    QuoteRecord {
        id: "id".to_string(),
        source_mint: "a".to_string(),
        target_mint: "b".to_string(),
        amount_in,
        amount_out: amount_in - fee,
        fee,
        fee_rate_ppm: 5000,
        broker_pubkey: String::new(),
        adaptor_point: String::new(),
        tweaked_pubkey: String::new(),
        status: status.to_string(),
        created_at: String::new(),
        expires_at: String::new(),
        accepted_at: None,
        completed_at: None,
        user_pubkey: None,
        error_message: None,
    }
}

#[test]
fn test_get_metrics() {
    let quotes = vec![
        record("completed", 100, 1),
        record("completed", 250, 2),
        record("failed", 10, 1),
        record("pending", 40, 1),
        record("expired", 20, 1),
    ];
    let m = compute_metrics(&quotes);
    assert_eq!(m.total_quotes, 5);
    assert_eq!(m.completed_swaps, 2);
    assert_eq!(m.failed_swaps, 1);
    assert_eq!(m.total_volume, 350);
    assert_eq!(m.total_fees, 3);
}

#[test]
fn metrics_on_empty_list_are_zero() {
    let m = compute_metrics(&vec![]);
    assert_eq!(m.total_quotes, 0);
    assert_eq!(m.completed_swaps, 0);
    assert_eq!(m.failed_swaps, 0);
    assert_eq!(m.total_volume, 0);
    assert_eq!(m.total_fees, 0);
}

#[test]
fn no_private_scalar_reaches_any_record_or_response() {
    // Drive a real quote through the engine, then hold every externally
    // visible artifact against the two private scalars.
    let mints = vec![
        MintConfig {
            mint_url: "http://a".to_string(),
            name: "A".to_string(),
            unit: "sat".to_string(),
        },
        MintConfig {
            mint_url: "http://b".to_string(),
            name: "B".to_string(),
            unit: "sat".to_string(),
        },
    ];
    let config = BrokerConfig { mints, ..BrokerConfig::default() };
    let mut ledger = LiquidityManager::new(&config.mints);
    ledger.deposit(&"http://b".to_string(), 100, None, 0).unwrap();
    let mut c = SwapCoordinator::new(config);
    let q = c
        .create_quote(
            &SwapRequest {
                client_id: None,
                from_mint: "http://a".to_string(),
                to_mint: "http://b".to_string(),
                amount: 8,
                client_public_key: None,
            },
            &mut ledger,
            1000,
        )
        .unwrap();

    let broker_key_hex = hex::encode(&c.quotes[0].broker_swap_key);
    let adaptor_secret_hex = hex::encode(&c.quotes[0].adaptor_secret);

    // The quote handed to the client carries only the public points.
    assert_ne!(hex::encode(&q.broker_public_key), broker_key_hex);
    assert_ne!(hex::encode(&q.adaptor_point), adaptor_secret_hex);

    // The stored record holds hex of public points and nothing that
    // matches a secret.
    let rec = make_quote_record(&q, "t0".to_string(), "t1".to_string(), None);
    for field in [&rec.broker_pubkey, &rec.adaptor_point, &rec.tweaked_pubkey] {
        assert!(!field.contains(&broker_key_hex));
        assert!(!field.contains(&adaptor_secret_hex));
    }

    // The swap record's adaptor_secret column is always written empty.
    let srec = make_swap_record(
        "sid".to_string(),
        &q.quote_id,
        "[]".to_string(),
        None,
        Some("enc".to_string()),
        "t0".to_string(),
    );
    assert!(srec.adaptor_secret.is_none());
    assert!(srec.decrypted_signature.is_none());
}

#[test]
fn quote_record_mirrors_the_quote() {
    let mints = vec![
        MintConfig {
            mint_url: "http://a".to_string(),
            name: "A".to_string(),
            unit: "sat".to_string(),
        },
        MintConfig {
            mint_url: "http://b".to_string(),
            name: "B".to_string(),
            unit: "sat".to_string(),
        },
    ];
    let config = BrokerConfig { mints, ..BrokerConfig::default() };
    let mut ledger = LiquidityManager::new(&config.mints);
    ledger.deposit(&"http://b".to_string(), 2000, None, 0).unwrap();
    let mut c = SwapCoordinator::new(config);
    let q = c
        .create_quote(
            &SwapRequest {
                client_id: None,
                from_mint: "http://a".to_string(),
                to_mint: "http://b".to_string(),
                amount: 1000,
                client_public_key: None,
            },
            &mut ledger,
            1000,
        )
        .unwrap();
    let rec = make_quote_record(&q, "c".to_string(), "e".to_string(), Some("02ab".to_string()));
    assert_eq!(rec.id, q.quote_id);
    assert_eq!(rec.source_mint, "http://a");
    assert_eq!(rec.target_mint, "http://b");
    assert_eq!(rec.amount_in, 1000);
    assert_eq!(rec.fee, 5);
    assert_eq!(rec.amount_out, 995);
    assert_eq!(rec.fee_rate_ppm, 5000);
    assert_eq!(rec.broker_pubkey, hex::encode(&q.broker_public_key));
    assert_eq!(rec.adaptor_point, hex::encode(&q.adaptor_point));
    assert_eq!(rec.tweaked_pubkey, hex::encode(q.tweaked_pubkey.as_ref().unwrap()));
    assert_eq!(rec.status, "pending");
    assert_eq!(rec.created_at, "c");
    assert_eq!(rec.expires_at, "e");
    assert_eq!(rec.user_pubkey.as_deref(), Some("02ab"));
}
