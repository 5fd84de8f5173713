//! Wire-level request and response shapes, and the aggregations the
//! service computes over stored records.

use vstd::prelude::*;
use crate::records::{LiquidityEvent, QuoteRecord};

verus! {

/// Body of a quote request.
pub struct QuoteRequest {
    pub source_mint: String,
    pub target_mint: String,
    pub amount: u64,
    pub user_pubkey: Option<String>,
}

/// Body of a quote acceptance: the client's source-side proofs, serialized.
pub struct AcceptQuoteRequest {
    pub source_proofs: String,
}

/// Answer to a quote acceptance: the broker's encrypted signature and the
/// P2PK-locked target-side proofs, serialized.
pub struct AcceptQuoteResponse {
    pub encrypted_signature: String,
    pub target_proofs: String,
}

/// Body of a swap completion: the client's witnessed proofs, serialized.
pub struct CompleteQuoteRequest {
    pub decrypted_signature: String,
}

/// Answer to a swap completion. Carries the final status only: the adaptor
/// secret is never surfaced.
pub struct CompleteQuoteResponse {
    pub status: String,
}

/// Query parameters of the quote listing.
pub struct ListQuotesQuery {
    pub status: Option<String>,
    pub limit: i64,
}

/// The default page size of the quote listing.
pub fn default_limit() -> (r: i64)
    ensures
        r == 50,
{
    50
}

/// One mint's liquidity, as the liquidity endpoint reports it.
pub struct MintLiquidity {
    pub mint_url: String,
    pub name: String,
    pub balance: u64,
    pub unit: String,
}

/// Answer of the liquidity endpoint.
pub struct LiquidityResponse {
    pub mints: Vec<MintLiquidity>,
    pub total_balance: u64,
}

/// Answer of the liquidity events endpoint.
pub struct LiquidityEventsResponse {
    pub events: Vec<LiquidityEvent>,
}

/// Answer of the health endpoint.
pub struct HealthResponse {
    pub status: String,
    pub timestamp: String,
    pub database: String,
}

/// Aggregated service metrics.
pub struct MetricsResponse {
    pub total_quotes: u64,
    pub completed_swaps: u64,
    pub failed_swaps: u64,
    pub total_volume: u64,
    pub total_fees: u64,
}

/// Error answer of any endpoint.
pub struct ErrorResponse {
    pub error: String,
    pub code: String,
}

/// How many records carry this status string.
pub open spec fn count_status(qs: Seq<QuoteRecord>, st: Seq<char>) -> int
    decreases qs.len(),
{
    if qs.len() == 0 {
        0
    } else {
        count_status(qs.drop_last(), st) + if qs.last().status@ == st { 1int } else { 0int }
    }
}

/// Summed input amounts of the completed records.
pub open spec fn sum_completed_volume(qs: Seq<QuoteRecord>) -> int
    decreases qs.len(),
{
    if qs.len() == 0 {
        0
    } else {
        sum_completed_volume(qs.drop_last()) + if qs.last().status@ == "completed"@ {
            qs.last().amount_in as int
        } else {
            0
        }
    }
}

/// Summed fees of the completed records.
pub open spec fn sum_completed_fees(qs: Seq<QuoteRecord>) -> int
    decreases qs.len(),
{
    if qs.len() == 0 {
        0
    } else {
        sum_completed_fees(qs.drop_last()) + if qs.last().status@ == "completed"@ {
            qs.last().fee as int
        } else {
            0
        }
    }
}

/// Clamp an integer into the `u64` range.
pub open spec fn clamp_u64(v: int) -> int {
    if v < 0 {
        0
    } else if v > u64::MAX {
        u64::MAX as int
    } else {
        v
    }
}

/// Aggregate service metrics over the stored quote records: how many there
/// are, how many completed and failed, and the total volume and fees of the
/// completed ones (clamped into the `u64` range, since stored amounts are
/// signed).
pub fn compute_metrics(quotes: &Vec<QuoteRecord>) -> (r: MetricsResponse)
    requires
        quotes@.len() <= u64::MAX,
    ensures
        r.total_quotes == quotes@.len(),
        r.completed_swaps == count_status(quotes@, "completed"@),
        r.failed_swaps == count_status(quotes@, "failed"@),
        r.total_volume == clamp_u64(sum_completed_volume(quotes@)),
        r.total_fees == clamp_u64(sum_completed_fees(quotes@)),
{
    let n = quotes.len();
    let mut completed: u64 = 0;
    let mut failed: u64 = 0;
    let mut volume: i128 = 0;
    let mut fees: i128 = 0;
    let mut k: usize = 0;
    while k < n
        invariant
            n == quotes@.len(),
            n <= u64::MAX,
            k <= n,
            completed == count_status(quotes@.take(k as int), "completed"@),
            failed == count_status(quotes@.take(k as int), "failed"@),
            volume == sum_completed_volume(quotes@.take(k as int)),
            fees == sum_completed_fees(quotes@.take(k as int)),
            completed <= k && failed <= k,
            (k as int) * (i64::MIN as int) <= volume <= (k as int) * (i64::MAX as int),
            (k as int) * (i64::MIN as int) <= fees <= (k as int) * (i64::MAX as int),
        decreases n - k,
    {
        proof {
            assert(quotes@.take(k as int + 1).drop_last() =~= quotes@.take(k as int));
            assert(quotes@.take(k as int + 1).last() == quotes@[k as int]);
            assert((k as int + 1) * (i64::MAX as int)
                == (k as int) * (i64::MAX as int) + i64::MAX) by (nonlinear_arith);
            assert((k as int + 1) * (i64::MIN as int)
                == (k as int) * (i64::MIN as int) + i64::MIN) by (nonlinear_arith);
            reveal_strlit("completed");
            reveal_strlit("failed");
            assert("completed"@.len() == 9);
            assert("failed"@.len() == 6);
        }
        if quotes[k].status == "completed".to_owned() {
            completed = completed + 1;
            volume = volume + (quotes[k].amount_in as i128);
            fees = fees + (quotes[k].fee as i128);
        } else if quotes[k].status == "failed".to_owned() {
            failed = failed + 1;
        }
        k += 1;
    }
    proof {
        assert(quotes@.take(n as int) =~= quotes@);
    }
    let total_volume: u64 = if volume < 0 {
        0
    } else if volume > (u64::MAX as i128) {
        u64::MAX
    } else {
        volume as u64
    };
    let total_fees: u64 = if fees < 0 {
        0
    } else if fees > (u64::MAX as i128) {
        u64::MAX
    } else {
        fees as u64
    };
    MetricsResponse {
        total_quotes: n as u64,
        completed_swaps: completed,
        failed_swaps: failed,
        total_volume,
        total_fees,
    }
}

} // verus!
