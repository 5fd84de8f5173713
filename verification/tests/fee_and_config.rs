use cashu_broker::config;
use cashu_broker::fee;
use cashu_broker::types::BrokerConfig;

#[test]
fn fee_is_ceil_of_rate_times_amount() {
    // 0.5% of 8 is 0.04, rounded up to 1.
    assert_eq!(fee::compute_fee(8, 5000), 1);
    assert_eq!(fee::compute_output(8, 5000), 7);
    // 0.5% of 1000 is exactly 5.
    assert_eq!(fee::compute_fee(1000, 5000), 5);
    assert_eq!(fee::compute_output(1000, 5000), 995);
    // The smallest amount still pays a fee under a non-zero rate.
    assert_eq!(fee::compute_fee(1, 5000), 1);
    assert_eq!(fee::compute_output(1, 5000), 0);
    // A zero rate charges nothing.
    assert_eq!(fee::compute_fee(12345, 0), 0);
    // The largest representable amount does not overflow.
    assert_eq!(fee::compute_fee(u64::MAX, 999_999), {
        let p = (u64::MAX as u128) * 999_999u128;
        ((p + 999_999) / 1_000_000) as u64
    });
}

#[test]
fn default_config_values() {
    let c = BrokerConfig::default();
    assert_eq!(c.fee_rate_ppm, 5000);
    assert_eq!(c.min_swap_amount, 1);
    assert_eq!(c.max_swap_amount, 10_000);
    assert_eq!(c.quote_expiry_seconds, 300);
    assert!(c.mints.is_empty());
}

#[test]
fn parse_u64_accepts_digits_only() {
    assert_eq!(config::parse_u64("0"), Some(0));
    assert_eq!(config::parse_u64("123"), Some(123));
    assert_eq!(config::parse_u64("18446744073709551615"), Some(u64::MAX));
    assert_eq!(config::parse_u64("18446744073709551616"), None);
    assert_eq!(config::parse_u64(""), None);
    assert_eq!(config::parse_u64("12a"), None);
    assert_eq!(config::parse_u64("-5"), None);
    assert_eq!(config::parse_u64(" 5"), None);
}

#[test]
fn parse_fee_rate_to_ppm() {
    assert_eq!(config::parse_fee_rate_ppm("0.005"), Some(5000));
    assert_eq!(config::parse_fee_rate_ppm("0"), Some(0));
    assert_eq!(config::parse_fee_rate_ppm("0.5"), Some(500_000));
    assert_eq!(config::parse_fee_rate_ppm("0.000001"), Some(1));
    assert_eq!(config::parse_fee_rate_ppm("0.999999"), Some(999_999));
    // A rate of one or more is rejected.
    assert_eq!(config::parse_fee_rate_ppm("1"), None);
    assert_eq!(config::parse_fee_rate_ppm("1.5"), None);
    // More than six fraction digits are rejected.
    assert_eq!(config::parse_fee_rate_ppm("0.0000005"), None);
    assert_eq!(config::parse_fee_rate_ppm(""), None);
    assert_eq!(config::parse_fee_rate_ppm("0."), None);
}

fn mint(url: &str) -> cashu_broker::types::MintConfig {
    cashu_broker::types::MintConfig {
        mint_url: url.to_string(),
        name: url.to_string(),
        unit: "sat".to_string(),
    }
}

#[test]
fn build_config_applies_defaults() {
    let c = config::build_config(
        None,
        None,
        None,
        None,
        vec!["*".to_string()],
        None,
        None,
        None,
        None,
        vec![mint("http://a"), mint("http://b")],
    )
    .unwrap();
    assert_eq!(c.host, "0.0.0.0");
    assert_eq!(c.port, 3000);
    assert_eq!(c.database_url, "sqlite://broker.db");
    assert_eq!(c.log_level, "info");
    assert_eq!(c.fee_rate_ppm, 5000);
    assert_eq!(c.min_swap_amount, 1);
    assert_eq!(c.max_swap_amount, 10_000);
    assert_eq!(c.quote_expiry_seconds, 300);
    assert_eq!(c.mints.len(), 2);
    let b = c.to_broker_config();
    assert_eq!(b.fee_rate_ppm, 5000);
    assert_eq!(b.mints.len(), 2);
}

#[test]
fn build_config_rejects_bad_inputs() {
    // No mint configured.
    assert!(config::build_config(
        None, None, None, None, vec![], None, None, None, None, vec![],
    )
    .is_err());
    // A port out of range.
    assert!(config::build_config(
        None,
        Some("70000".to_string()),
        None,
        None,
        vec![],
        None,
        None,
        None,
        None,
        vec![mint("http://a")],
    )
    .is_err());
    // A fee rate of one.
    assert!(config::build_config(
        None,
        None,
        None,
        None,
        vec![],
        Some("1.0".to_string()),
        None,
        None,
        None,
        vec![mint("http://a")],
    )
    .is_err());
    // An empty amount window.
    assert!(config::build_config(
        None,
        None,
        None,
        None,
        vec![],
        None,
        Some("100".to_string()),
        Some("5".to_string()),
        None,
        vec![mint("http://a")],
    )
    .is_err());
}

#[test]
fn build_config_parses_explicit_values() {
    let c = config::build_config(
        Some("127.0.0.1".to_string()),
        Some("8080".to_string()),
        Some("sqlite::memory:".to_string()),
        Some("debug".to_string()),
        vec!["http://x".to_string()],
        Some("0.01".to_string()),
        Some("5".to_string()),
        Some("500".to_string()),
        Some("60".to_string()),
        vec![mint("http://a")],
    )
    .unwrap();
    assert_eq!(c.host, "127.0.0.1");
    assert_eq!(c.port, 8080);
    assert_eq!(c.fee_rate_ppm, 10_000);
    assert_eq!(c.min_swap_amount, 5);
    assert_eq!(c.max_swap_amount, 500);
    assert_eq!(c.quote_expiry_seconds, 60);
}
