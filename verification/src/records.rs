//! Stored record shapes and their builders.
//!
//! These are the rows the service persists: quotes, swap executions and
//! liquidity events. Byte fields travel hex-encoded. The builders are the
//! only places records are assembled, and their contracts pin every field —
//! in particular, no private scalar has any place in a record: the quote
//! record holds only public keys, and the swap record's `adaptor_secret`
//! column is always written empty.

use vstd::prelude::*;
use crate::codec;
use crate::types::SwapQuote;

verus! {

/// A stored quote row. All key fields are lowercase hex of compressed
/// points; the fee rate is in parts per million.
pub struct QuoteRecord {
    pub id: String,
    pub source_mint: String,
    pub target_mint: String,
    pub amount_in: i64,
    pub amount_out: i64,
    pub fee: i64,
    pub fee_rate_ppm: u64,
    pub broker_pubkey: String,
    pub adaptor_point: String,
    pub tweaked_pubkey: String,
    pub status: String,
    pub created_at: String,
    pub expires_at: String,
    pub accepted_at: Option<String>,
    pub completed_at: Option<String>,
    pub user_pubkey: Option<String>,
    pub error_message: Option<String>,
}

/// A stored swap-execution row.
pub struct SwapRecord {
    pub id: String,
    pub quote_id: String,
    pub source_proofs: String,
    pub target_proofs: Option<String>,
    pub encrypted_signature: Option<String>,
    pub decrypted_signature: Option<String>,
    /// Never populated: the adaptor secret stays inside the engine.
    pub adaptor_secret: Option<String>,
    pub started_at: String,
    pub completed_at: Option<String>,
}

/// A stored liquidity audit row.
pub struct LiquidityEvent {
    pub id: Option<i64>,
    pub mint_url: String,
    pub event_type: String,
    pub amount: i64,
    pub balance_after: i64,
    pub quote_id: Option<String>,
    pub created_at: String,
}

/// Build the stored row for a fresh quote. Only public data enters the
/// record: the hex of the three public points, the amounts, and the given
/// timestamps — the record type has no field a private scalar could fill.
pub fn make_quote_record(
    quote: &SwapQuote,
    created_at: String,
    expires_at: String,
    user_pubkey: Option<String>,
) -> (r: QuoteRecord)
    requires
        quote.input_amount <= i64::MAX,
    ensures
        r.id@ == quote.quote_id@,
        r.source_mint@ == quote.from_mint@,
        r.target_mint@ == quote.to_mint@,
        r.amount_in == quote.input_amount,
        quote.output_amount <= quote.input_amount ==> r.amount_out == quote.output_amount,
        quote.fee <= quote.input_amount ==> r.fee == quote.fee,
        r.fee_rate_ppm == quote.fee_rate_ppm,
        r.broker_pubkey@ == codec::spec_hex(quote.broker_public_key@),
        r.adaptor_point@ == codec::spec_hex(quote.adaptor_point@),
        (match quote.tweaked_pubkey {
            Some(t) => r.tweaked_pubkey@ == codec::spec_hex(t@),
            None => r.tweaked_pubkey@.len() == 0,
        }),
        r.status@ == quote.status.spec_str(),
        r.created_at@ == created_at@,
        r.expires_at@ == expires_at@,
        r.accepted_at is None,
        r.completed_at is None,
        (match user_pubkey {
            Some(u) => r.user_pubkey matches Some(v) && v@ == u@,
            None => r.user_pubkey is None,
        }),
        r.error_message is None,
{
    let tweaked = match &quote.tweaked_pubkey {
        Some(t) => codec::hex_encode(t),
        None => String::new(),
    };
    QuoteRecord {
        id: quote.quote_id.clone(),
        source_mint: quote.from_mint.clone(),
        target_mint: quote.to_mint.clone(),
        amount_in: quote.input_amount as i64,
        amount_out: if quote.output_amount <= quote.input_amount {
            quote.output_amount as i64
        } else {
            0
        },
        fee: if quote.fee <= quote.input_amount {
            quote.fee as i64
        } else {
            0
        },
        fee_rate_ppm: quote.fee_rate_ppm,
        broker_pubkey: codec::hex_encode(&quote.broker_public_key),
        adaptor_point: codec::hex_encode(&quote.adaptor_point),
        tweaked_pubkey: tweaked,
        status: quote.status.as_str_name(),
        created_at,
        expires_at,
        accepted_at: None,
        completed_at: None,
        user_pubkey,
        error_message: None,
    }
}

/// Build the stored row for a swap execution opened at quote acceptance.
/// The `adaptor_secret` column is written empty — by this builder's
/// contract, nothing can put a secret there.
pub fn make_swap_record(
    id: String,
    quote_id: &String,
    source_proofs: String,
    target_proofs: Option<String>,
    encrypted_signature: Option<String>,
    started_at: String,
) -> (r: SwapRecord)
    ensures
        r.id@ == id@,
        r.quote_id@ == quote_id@,
        r.source_proofs@ == source_proofs@,
        (match target_proofs {
            Some(t) => r.target_proofs matches Some(v) && v@ == t@,
            None => r.target_proofs is None,
        }),
        (match encrypted_signature {
            Some(e) => r.encrypted_signature matches Some(v) && v@ == e@,
            None => r.encrypted_signature is None,
        }),
        r.decrypted_signature is None,
        r.adaptor_secret is None,
        r.started_at@ == started_at@,
        r.completed_at is None,
{
    SwapRecord {
        id,
        quote_id: quote_id.clone(),
        source_proofs,
        target_proofs,
        encrypted_signature,
        decrypted_signature: None,
        adaptor_secret: None,
        started_at,
        completed_at: None,
    }
}

} // verus!
