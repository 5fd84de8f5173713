//! Service configuration, built from plain environment values.
//!
//! The surrounding binary reads the environment; everything that has to be
//! decided about those strings — defaults, decimal parsing, the fee rate in
//! parts per million, validation — happens here, with exact contracts.

use vstd::prelude::*;
use vstd::string::StrSliceExecFns;
use crate::errors::BrokerError;
use crate::types::MintConfig;

verus! {

/// A decimal digit.
pub open spec fn is_digit(c: char) -> bool {
    48 <= c as int <= 57
}

/// The value of a decimal digit.
pub open spec fn digit_val(c: char) -> int {
    c as int - 48
}

/// Every character is a decimal digit (and there is at least one).
pub open spec fn all_digits(s: Seq<char>) -> bool {
    s.len() > 0 && forall|i: int| 0 <= i < s.len() ==> is_digit(#[trigger] s[i])
}

/// Value of a digit string, most significant first.
pub open spec fn digits_val(s: Seq<char>) -> int
    decreases s.len(),
{
    if s.len() == 0 {
        0
    } else {
        digits_val(s.drop_last()) * 10 + digit_val(s.last())
    }
}

/// What `parse_u64` accepts: a non-empty all-digit string whose value fits
/// a `u64`.
pub open spec fn spec_parse_u64(s: Seq<char>) -> Option<u64> {
    if all_digits(s) && 0 <= digits_val(s) <= u64::MAX {
        Some(digits_val(s) as u64)
    } else {
        None
    }
}

/// A digit string's value is non-negative.
proof fn lemma_digits_val_nonneg(s: Seq<char>)
    requires
        forall|j: int| 0 <= j < s.len() ==> is_digit(#[trigger] s[j]),
    ensures
        digits_val(s) >= 0,
    decreases s.len(),
{
    if s.len() > 0 {
        assert(forall|j: int|
            0 <= j < s.drop_last().len() ==> is_digit(#[trigger] s.drop_last()[j]));
        lemma_digits_val_nonneg(s.drop_last());
        assert(digits_val(s.drop_last()) * 10 >= 0) by (nonlinear_arith)
            requires digits_val(s.drop_last()) >= 0;
    }
}

/// A digit string's value only grows as digits are appended.
proof fn lemma_digits_val_grows(s: Seq<char>, i: int)
    requires
        0 <= i <= s.len(),
        forall|j: int| 0 <= j < s.len() ==> is_digit(#[trigger] s[j]),
    ensures
        digits_val(s) >= digits_val(s.take(i)) >= 0,
    decreases s.len(),
{
    assert(forall|j: int| 0 <= j < s.take(i).len() ==> is_digit(#[trigger] s.take(i)[j]));
    lemma_digits_val_nonneg(s.take(i));
    if i < s.len() {
        assert(forall|j: int|
            0 <= j < s.drop_last().len() ==> is_digit(#[trigger] s.drop_last()[j]));
        lemma_digits_val_grows(s.drop_last(), i);
        assert(s.drop_last().take(i) =~= s.take(i));
        lemma_digits_val_nonneg(s.drop_last());
        assert(digits_val(s.drop_last()) * 10 + digit_val(s.last())
            >= digits_val(s.drop_last())) by (nonlinear_arith)
            requires digits_val(s.drop_last()) >= 0, digit_val(s.last()) >= 0;
    } else {
        assert(s.take(i) =~= s);
    }
}

/// Parse a decimal `u64`, exactly as stated by [`spec_parse_u64`]: only
/// non-empty all-digit strings whose value fits are accepted.
pub fn parse_u64(s: &str) -> (r: Option<u64>)
    ensures
        r == spec_parse_u64(s@),
{
    let n = s.unicode_len();
    if n == 0 {
        return None;
    }
    let mut acc: u64 = 0;
    let mut i: usize = 0;
    while i < n
        invariant
            n == s@.len(),
            0 < n,
            i <= n,
            forall|j: int| 0 <= j < i ==> is_digit(#[trigger] s@[j]),
            acc == digits_val(s@.take(i as int)),
        decreases n - i,
    {
        proof {
            assert(s@.take(i as int + 1).drop_last() =~= s@.take(i as int));
            assert(s@.take(i as int + 1).last() == s@[i as int]);
        }
        let c = s.get_char(i);
        let cv = c as u32;
        if cv < 48 || cv > 57 {
            return None;
        }
        let d: u64 = (cv - 48) as u64;
        if acc > (u64::MAX - d) / 10 {
            proof {
                let t = s@.take(i as int + 1);
                assert(digits_val(t) == acc * 10 + d);
                assert(acc * 10 + d > u64::MAX) by (nonlinear_arith)
                    requires acc > ((u64::MAX - d) / 10) as int, 0 <= d <= 9,
                        acc <= u64::MAX;
                if all_digits(s@) {
                    lemma_digits_val_grows(s@, i as int + 1);
                }
            }
            return None;
        }
        acc = acc * 10 + d;
        i += 1;
    }
    proof {
        assert(s@.take(n as int) =~= s@);
    }
    Some(acc)
}

/// One million, the fee-rate denominator, as ten to the sixth.
pub open spec fn pow10(e: int) -> int
    decreases e,
{
    if e <= 0 {
        1
    } else {
        10 * pow10(e - 1)
    }
}

/// What `parse_fee_rate_ppm` accepts: `"0"` (a zero rate), or `"0."`
/// followed by one to six fraction digits; the value is the fraction scaled
/// to parts per million. Anything else — in particular any rate of one or
/// more — is rejected.
pub open spec fn spec_parse_fee_ppm(s: Seq<char>) -> Option<u64> {
    if s.len() == 1 && s[0] == '0' {
        Some(0)
    } else if 3 <= s.len() <= 8 && s[0] == '0' && s[1] == '.'
        && all_digits(s.subrange(2, s.len() as int)) {
        Some((digits_val(s.subrange(2, s.len() as int))
            * pow10(6 - (s.len() - 2))) as u64)
    } else {
        None
    }
}

/// The small powers of ten, spelled out.
proof fn lemma_pow10_vals()
    ensures
        pow10(0) == 1,
        pow10(1) == 10,
        pow10(2) == 100,
        pow10(3) == 1_000,
        pow10(4) == 10_000,
        pow10(5) == 100_000,
        pow10(6) == 1_000_000,
{
    assert(pow10(0) == 1);
    assert(pow10(1) == 10);
    assert(pow10(2) == 100);
    assert(pow10(3) == 1_000);
    assert(pow10(4) == 10_000);
    assert(pow10(5) == 100_000);
    assert(pow10(6) == 1_000_000);
}

/// Parse a fee rate written as a decimal fraction below one into parts per
/// million, exactly as stated by [`spec_parse_fee_ppm`].
pub fn parse_fee_rate_ppm(s: &str) -> (r: Option<u64>)
    ensures
        r == spec_parse_fee_ppm(s@),
        r matches Some(v) ==> v < 1_000_000,
{
    let n = s.unicode_len();
    if n == 1 {
        if s.get_char(0) == '0' {
            return Some(0);
        }
        return None;
    }
    if n < 3 || n > 8 {
        return None;
    }
    if s.get_char(0) != '0' || s.get_char(1) != '.' {
        return None;
    }
    let frac_len = n - 2;
    let mut acc: u64 = 0;
    let mut i: usize = 2;
    while i < n
        invariant
            n == s@.len(),
            3 <= n <= 8,
            2 <= i <= n,
            forall|j: int| 2 <= j < i ==> is_digit(#[trigger] s@[j]),
            acc == digits_val(s@.subrange(2, i as int)),
            acc < pow10(i - 2),
        decreases n - i,
    {
        proof {
            assert(s@.subrange(2, i as int + 1).drop_last() =~= s@.subrange(2, i as int));
            assert(s@.subrange(2, i as int + 1).last() == s@[i as int]);
            assert(pow10(i - 2 + 1) == 10 * pow10(i - 2));
        }
        let c = s.get_char(i);
        let cv = c as u32;
        if cv < 48 || cv > 57 {
            return None;
        }
        let d: u64 = (cv - 48) as u64;
        proof {
            lemma_pow10_vals();
            assert(acc * 10 + d < pow10(i - 2) * 10) by (nonlinear_arith)
                requires acc < pow10(i - 2), 0 <= d <= 9, pow10(i - 2) >= 1;
        }
        acc = acc * 10 + d;
        i += 1;
    }
    let scale: u64 = match frac_len {
        1 => 100_000,
        2 => 10_000,
        3 => 1_000,
        4 => 100,
        5 => 10,
        _ => 1,
    };
    proof {
        lemma_pow10_vals();
        assert(s@.subrange(2, n as int) == s@.subrange(2, s@.len() as int));
        assert(scale == pow10(6 - frac_len as int));
        assert(acc * scale <= (pow10(frac_len as int) - 1) * scale) by (nonlinear_arith)
            requires acc <= pow10(frac_len as int) - 1, scale >= 0;
        assert((pow10(frac_len as int) - 1) * scale
            == pow10(frac_len as int) * scale - scale) by (nonlinear_arith);
        assert(pow10(frac_len as int) * pow10(6 - frac_len as int) == pow10(6)) by {
            lemma_pow10_vals();
            assert(pow10(1) * pow10(5) == pow10(6) && pow10(2) * pow10(4) == pow10(6)
                && pow10(3) * pow10(3) == pow10(6) && pow10(4) * pow10(2) == pow10(6)
                && pow10(5) * pow10(1) == pow10(6) && pow10(6) * pow10(0) == pow10(6))
                by (nonlinear_arith)
                requires pow10(0) == 1 && pow10(1) == 10 && pow10(2) == 100
                    && pow10(3) == 1_000 && pow10(4) == 10_000 && pow10(5) == 100_000
                    && pow10(6) == 1_000_000;
        }
    }
    Some(acc * scale)
}

/// Server configuration, after parsing and defaulting.
pub struct Config {
    pub host: String,
    pub port: u16,
    pub database_url: String,
    pub log_level: String,
    pub cors_origins: Vec<String>,
    /// Broker fee rate in parts per million.
    pub fee_rate_ppm: u64,
    pub min_swap_amount: u64,
    pub max_swap_amount: u64,
    pub quote_expiry_seconds: u64,
    pub mints: Vec<MintConfig>,
}

/// Whether the raw inputs are rejected: a number that does not parse, a
/// port out of range, a fee rate not below one, an empty amount window, or
/// no mint configured.
pub open spec fn config_inputs_bad(
    port: Option<String>,
    fee_rate: Option<String>,
    min_swap_amount: Option<String>,
    max_swap_amount: Option<String>,
    quote_expiry_seconds: Option<String>,
    mints: Seq<MintConfig>,
) -> bool {
    ||| (match port {
        Some(p) => !(spec_parse_u64(p@) matches Some(v) && v <= 65535),
        None => false,
    })
    ||| (match fee_rate {
        Some(f) => spec_parse_fee_ppm(f@) is None,
        None => false,
    })
    ||| (match min_swap_amount {
        Some(v) => !(spec_parse_u64(v@) matches Some(x) && x >= 1),
        None => false,
    })
    ||| (match max_swap_amount {
        Some(v) => spec_parse_u64(v@) is None,
        None => false,
    })
    ||| (match quote_expiry_seconds {
        Some(v) => spec_parse_u64(v@) is None,
        None => false,
    })
    ||| {
        let min = match min_swap_amount {
            Some(v) => spec_parse_u64(v@),
            None => Some(1u64),
        };
        let max = match max_swap_amount {
            Some(v) => spec_parse_u64(v@),
            None => Some(10_000u64),
        };
        min matches Some(mn) && max matches Some(mx) && mn > mx
    }
    ||| mints.len() == 0
}

/// Assemble the configuration from raw environment values: absent values
/// take their documented defaults, numbers are parsed exactly, the fee
/// rate must be below one, the amount window must be non-empty and start
/// at one or more, and at least one mint must be configured. The first
/// failing input is reported and nothing is built.
pub fn build_config(
    host: Option<String>,
    port: Option<String>,
    database_url: Option<String>,
    log_level: Option<String>,
    cors_origins: Vec<String>,
    fee_rate: Option<String>,
    min_swap_amount: Option<String>,
    max_swap_amount: Option<String>,
    quote_expiry_seconds: Option<String>,
    mints: Vec<MintConfig>,
) -> (r: Result<Config, BrokerError>)
    ensures
        r is Err <==> config_inputs_bad(port, fee_rate, min_swap_amount, max_swap_amount,
            quote_expiry_seconds, mints@),
        r matches Ok(c) ==> {
            &&& (match host {
                Some(h) => c.host@ == h@,
                None => c.host@ == "0.0.0.0"@,
            })
            &&& (match port {
                Some(p) => spec_parse_u64(p@) == Some(c.port as u64),
                None => c.port == 3000,
            })
            &&& (match database_url {
                Some(d) => c.database_url@ == d@,
                None => c.database_url@ == "sqlite://broker.db"@,
            })
            &&& (match log_level {
                Some(l) => c.log_level@ == l@,
                None => c.log_level@ == "info"@,
            })
            &&& c.cors_origins@ == cors_origins@
            &&& (match fee_rate {
                Some(f) => spec_parse_fee_ppm(f@) == Some(c.fee_rate_ppm),
                None => c.fee_rate_ppm == 5000,
            })
            &&& (match min_swap_amount {
                Some(v) => spec_parse_u64(v@) == Some(c.min_swap_amount),
                None => c.min_swap_amount == 1,
            })
            &&& (match max_swap_amount {
                Some(v) => spec_parse_u64(v@) == Some(c.max_swap_amount),
                None => c.max_swap_amount == 10_000,
            })
            &&& (match quote_expiry_seconds {
                Some(v) => spec_parse_u64(v@) == Some(c.quote_expiry_seconds),
                None => c.quote_expiry_seconds == 300,
            })
            &&& c.mints@ == mints@
            &&& c.fee_rate_ppm < 1_000_000
            &&& 1 <= c.min_swap_amount <= c.max_swap_amount
        },
{
    let port_v: u16 = match &port {
        None => 3000,
        Some(p) => {
            match parse_u64(p.as_str()) {
                Some(v) if v <= 65535 => v as u16,
                _ => {
                    return Err(BrokerError::InvalidSwapRequest("invalid PORT".to_owned()));
                },
            }
        },
    };
    let fee_v: u64 = match &fee_rate {
        None => 5000,
        Some(f) => {
            match parse_fee_rate_ppm(f.as_str()) {
                Some(v) => v,
                None => {
                    return Err(BrokerError::InvalidSwapRequest("invalid FEE_RATE".to_owned()));
                },
            }
        },
    };
    let min_v: u64 = match &min_swap_amount {
        None => 1,
        Some(v) => {
            match parse_u64(v.as_str()) {
                Some(x) if x >= 1 => x,
                _ => {
                    return Err(BrokerError::InvalidSwapRequest(
                        "invalid MIN_SWAP_AMOUNT".to_owned()));
                },
            }
        },
    };
    let max_v: u64 = match &max_swap_amount {
        None => 10_000,
        Some(v) => {
            match parse_u64(v.as_str()) {
                Some(x) => x,
                None => {
                    return Err(BrokerError::InvalidSwapRequest(
                        "invalid MAX_SWAP_AMOUNT".to_owned()));
                },
            }
        },
    };
    let expiry_v: u64 = match &quote_expiry_seconds {
        None => 300,
        Some(v) => {
            match parse_u64(v.as_str()) {
                Some(x) => x,
                None => {
                    return Err(BrokerError::InvalidSwapRequest(
                        "invalid QUOTE_EXPIRY_SECONDS".to_owned()));
                },
            }
        },
    };
    if min_v > max_v {
        return Err(BrokerError::InvalidSwapRequest("empty swap amount window".to_owned()));
    }
    if mints.len() == 0 {
        return Err(BrokerError::InvalidSwapRequest(
            "at least one mint must be configured".to_owned()));
    }
    let host_v = match host {
        Some(h) => h,
        None => "0.0.0.0".to_owned(),
    };
    let database_v = match database_url {
        Some(d) => d,
        None => "sqlite://broker.db".to_owned(),
    };
    let log_v = match log_level {
        Some(l) => l,
        None => "info".to_owned(),
    };
    Ok(Config {
        host: host_v,
        port: port_v,
        database_url: database_v,
        log_level: log_v,
        cors_origins,
        fee_rate_ppm: fee_v,
        min_swap_amount: min_v,
        max_swap_amount: max_v,
        quote_expiry_seconds: expiry_v,
        mints,
    })
}

impl Config {
    /// The broker-facing part of the configuration.
    pub fn to_broker_config(&self) -> (r: crate::types::BrokerConfig)
        requires
            self.fee_rate_ppm < 1_000_000,
            1 <= self.min_swap_amount <= self.max_swap_amount,
        ensures
            r.wf(),
            r.fee_rate_ppm == self.fee_rate_ppm,
            r.min_swap_amount == self.min_swap_amount,
            r.max_swap_amount == self.max_swap_amount,
            r.quote_expiry_seconds == self.quote_expiry_seconds,
            r.mints@.len() == self.mints@.len(),
            forall|i: int|
                0 <= i < self.mints@.len() ==> {
                    &&& (#[trigger] r.mints@[i]).mint_url@ == self.mints@[i].mint_url@
                    &&& r.mints@[i].name@ == self.mints@[i].name@
                    &&& r.mints@[i].unit@ == self.mints@[i].unit@
                },
    {
        let n = self.mints.len();
        let mut mints: Vec<MintConfig> = Vec::new();
        let mut k: usize = 0;
        while k < n
            invariant
                n == self.mints@.len(),
                k <= n,
                mints@.len() == k,
                forall|i: int|
                    0 <= i < k ==> {
                        &&& (#[trigger] mints@[i]).mint_url@ == self.mints@[i].mint_url@
                        &&& mints@[i].name@ == self.mints@[i].name@
                        &&& mints@[i].unit@ == self.mints@[i].unit@
                    },
            decreases n - k,
        {
            mints.push(MintConfig {
                mint_url: self.mints[k].mint_url.clone(),
                name: self.mints[k].name.clone(),
                unit: self.mints[k].unit.clone(),
            });
            k += 1;
        }
        crate::types::BrokerConfig {
            mints,
            fee_rate_ppm: self.fee_rate_ppm,
            min_swap_amount: self.min_swap_amount,
            max_swap_amount: self.max_swap_amount,
            quote_expiry_seconds: self.quote_expiry_seconds,
        }
    }
}

} // verus!
