//! Error taxonomy of the broker core.

use vstd::prelude::*;

verus! {

/// Everything that can go wrong in the broker core. Validation and state
/// errors are surfaced to the caller; mint-side failures are reported by the
/// surrounding service through `Cdk`.
#[derive(Debug)]
pub enum BrokerError {
    /// The target mint cannot cover the requested output amount.
    InsufficientLiquidity { mint_url: String, needed: u64, available: u64 },
    /// The request or the quote's state does not admit the operation.
    InvalidSwapRequest(String),
    QuoteNotFound(String),
    QuoteExpired(String),
    AmountTooLow { amount: u64, min: u64 },
    AmountTooHigh { amount: u64, max: u64 },
    UnsupportedMint(String),
    SameMintSwap,
    /// The client's proofs do not sum to the quoted input amount.
    AmountMismatch { expected: u64, actual: u64 },
    /// The witness on the client's proofs did not verify.
    InvalidWitness,
    /// A curve operation failed (bad encoding, zero scalar, identity point).
    AdaptorSignature(String),
    /// The mint backend reported a failure.
    Cdk(String),
}

impl BrokerError {
    /// A stable machine-readable tag for each error, as the transport layer
    /// reports it.
    pub open spec fn spec_code(self) -> Seq<char> {
        match self {
            BrokerError::InsufficientLiquidity { .. } => "INSUFFICIENT_LIQUIDITY"@,
            BrokerError::QuoteNotFound(_) => "QUOTE_NOT_FOUND"@,
            BrokerError::QuoteExpired(_) => "QUOTE_EXPIRED"@,
            _ => "BROKER_ERROR"@,
        }
    }

    /// The HTTP status the transport layer answers with for this error.
    pub open spec fn spec_http_status(self) -> u16 {
        match self {
            BrokerError::InsufficientLiquidity { .. } => 503,
            BrokerError::QuoteNotFound(_) => 404,
            BrokerError::QuoteExpired(_) => 400,
            _ => 500,
        }
    }

    /// Machine-readable tag of the error.
    pub fn code(&self) -> (r: String)
        ensures
            r@ == self.spec_code(),
    {
        match self {
            BrokerError::InsufficientLiquidity { .. } => "INSUFFICIENT_LIQUIDITY".to_owned(),
            BrokerError::QuoteNotFound(_) => "QUOTE_NOT_FOUND".to_owned(),
            BrokerError::QuoteExpired(_) => "QUOTE_EXPIRED".to_owned(),
            _ => "BROKER_ERROR".to_owned(),
        }
    }

    /// HTTP status code the error maps to.
    pub fn http_status(&self) -> (r: u16)
        ensures
            r == self.spec_http_status(),
    {
        match self {
            BrokerError::InsufficientLiquidity { .. } => 503,
            BrokerError::QuoteNotFound(_) => 404,
            BrokerError::QuoteExpired(_) => 400,
            _ => 500,
        }
    }
}

} // verus!
