//! The swap state machine.
//!
//! A quote moves `Pending -> Accepted -> Completed`, with `Expired` and
//! `Failed` reachable from either non-terminal status. While a quote is
//! non-terminal, its output amount is reserved in the liquidity ledger
//! against its target mint; the coordinator maintains, as an invariant, that
//! each mint's reserved balance equals the sum of the output amounts of the
//! non-terminal quotes targeting it.

use vstd::prelude::*;
use crate::adaptor;
use crate::adaptor::EncSig;
use crate::codec;
use crate::errors::BrokerError;
use crate::fee;
use crate::ledger::{sum_amounts, LiquidityManager};
use crate::types::{BrokerConfig, SwapQuote, SwapRequest, SwapStatus};

verus! {

/// A quote together with the broker's private key material for it. The
/// private scalars live only here: the embedded `SwapQuote`, which is what
/// callers receive, has no field for them.
pub struct QuoteData {
    pub quote: SwapQuote,
    /// The broker's fresh signing key for this quote (32-byte scalar).
    pub broker_swap_key: Vec<u8>,
    /// The adaptor secret `t` with `T = t * G` (32-byte scalar).
    pub adaptor_secret: Vec<u8>,
}

/// Record of a swap execution, kept once a quote is accepted.
pub struct SwapExecution {
    pub quote_id: String,
    /// Serialized client-side tokens, opaque to the engine.
    pub client_tokens: Vec<u8>,
    /// Serialized broker-side tokens, opaque to the engine.
    pub broker_tokens: Vec<u8>,
    pub client_swap_complete: bool,
    pub broker_swap_complete: bool,
    pub completed_at: Option<u64>,
}

/// Coordinates quotes and their liquidity reservations.
pub struct SwapCoordinator {
    pub config: BrokerConfig,
    pub quotes: Vec<QuoteData>,
    pub executions: Vec<SwapExecution>,
}

impl BrokerConfig {
    /// The configuration lists a mint with this URL.
    pub open spec fn supports(self, m: Seq<char>) -> bool {
        exists|i: int| 0 <= i < self.mints@.len() && self.mints@[i].mint_url@ == m
    }
}

/// What `amount` a quote holds reserved on mint `m`: its output amount when
/// it targets `m` and is non-terminal, nothing otherwise.
pub open spec fn quote_contrib(q: QuoteData, m: Seq<char>) -> int {
    if q.quote.to_mint@ == m && q.quote.status.holds_reservation() {
        q.quote.output_amount as int
    } else {
        0
    }
}

/// Total amount the quotes hold reserved on mint `m`.
pub open spec fn quotes_reserved(qs: Seq<QuoteData>, m: Seq<char>) -> int
    decreases qs.len(),
{
    if qs.len() == 0 {
        0
    } else {
        quotes_reserved(qs.drop_last(), m) + quote_contrib(qs.last(), m)
    }
}

/// The reserved total is the sum of non-negative contributions.
pub proof fn lemma_quotes_reserved_nonneg(qs: Seq<QuoteData>, m: Seq<char>)
    ensures
        quotes_reserved(qs, m) >= 0,
    decreases qs.len(),
{
    if qs.len() > 0 {
        lemma_quotes_reserved_nonneg(qs.drop_last(), m);
    }
}

/// Appending a quote adds exactly its contribution.
pub proof fn lemma_quotes_reserved_push(qs: Seq<QuoteData>, q: QuoteData, m: Seq<char>)
    ensures
        quotes_reserved(qs.push(q), m) == quotes_reserved(qs, m) + quote_contrib(q, m),
{
    assert(qs.push(q).drop_last() =~= qs);
    assert(qs.push(q).last() == q);
}

/// Replacing one quote shifts the total by the difference of contributions.
pub proof fn lemma_quotes_reserved_update(qs: Seq<QuoteData>, i: int, q: QuoteData, m: Seq<char>)
    requires
        0 <= i < qs.len(),
    ensures
        quotes_reserved(qs.update(i, q), m) == quotes_reserved(qs, m)
            - quote_contrib(qs[i], m) + quote_contrib(q, m),
    decreases qs.len(),
{
    let upd = qs.update(i, q);
    if i == qs.len() - 1 {
        assert(upd.drop_last() =~= qs.drop_last());
        assert(upd.last() == q);
    } else {
        assert(upd.drop_last() =~= qs.drop_last().update(i, q));
        assert(upd.last() == qs.last());
        lemma_quotes_reserved_update(qs.drop_last(), i, q, m);
    }
}

/// The total on `m` covers each single quote's contribution.
pub proof fn lemma_quotes_reserved_ge_contrib(qs: Seq<QuoteData>, i: int, m: Seq<char>)
    requires
        0 <= i < qs.len(),
    ensures
        quotes_reserved(qs, m) >= quote_contrib(qs[i], m),
    decreases qs.len(),
{
    lemma_quotes_reserved_nonneg(qs.drop_last(), m);
    if i == qs.len() - 1 {
    } else {
        lemma_quotes_reserved_ge_contrib(qs.drop_last(), i, m);
        assert(quote_contrib(qs.last(), m) >= 0);
    }
}

impl SwapCoordinator {
    /// A single quote is well formed for this configuration: priced by the
    /// configured fee rate, inside the amount window, between two distinct
    /// configured mints, its key material valid, and its public points
    /// derived from its private scalars.
    pub open spec fn quote_wf(self, qd: QuoteData) -> bool {
        let q = qd.quote;
        &&& q.fee == fee::spec_fee(q.input_amount, self.config.fee_rate_ppm)
        &&& q.output_amount == q.input_amount - q.fee
        &&& q.output_amount > 0
        &&& q.fee_rate_ppm == self.config.fee_rate_ppm
        &&& self.config.min_swap_amount <= q.input_amount <= self.config.max_swap_amount
        &&& self.config.supports(q.from_mint@)
        &&& self.config.supports(q.to_mint@)
        &&& q.from_mint@ != q.to_mint@
        &&& q.quote_id@.len() == 32
        &&& adaptor::scalar_ok(qd.broker_swap_key@)
        &&& adaptor::scalar_ok(qd.adaptor_secret@)
        &&& adaptor::scalar_sum(qd.broker_swap_key@, qd.adaptor_secret@) is Some
        &&& q.broker_public_key@ == adaptor::point_of(qd.broker_swap_key@)
        &&& q.adaptor_point@ == adaptor::point_of(qd.adaptor_secret@)
        &&& adaptor::point_ok(q.broker_public_key@)
        &&& adaptor::point_ok(q.adaptor_point@)
        &&& (q.tweaked_pubkey matches Some(t)
            && Some(t@) == adaptor::point_sum(q.broker_public_key@, q.adaptor_point@))
    }

    /// The coordinator is well formed: a valid configuration, every quote
    /// well formed, and quote ids unique.
    pub open spec fn wf(self) -> bool {
        &&& self.config.wf()
        &&& forall|i: int|
            0 <= i < self.quotes@.len() ==> self.quote_wf(#[trigger] self.quotes@[i])
        &&& forall|i: int, j: int|
            0 <= i < j < self.quotes@.len()
                ==> self.quotes@[i].quote.quote_id@ != self.quotes@[j].quote.quote_id@
    }

    /// There is a quote with this id.
    pub open spec fn has_quote(self, id: Seq<char>) -> bool {
        exists|i: int| 0 <= i < self.quotes@.len() && self.quotes@[i].quote.quote_id@ == id
    }

    /// Index of the quote with this id (meaningful only when `has_quote`).
    pub open spec fn qidx(self, id: Seq<char>) -> int {
        choose|i: int| 0 <= i < self.quotes@.len() && self.quotes@[i].quote.quote_id@ == id
    }

    /// Every mint the configuration lists has a ledger entry.
    pub open spec fn mints_in_ledger(self, ledger: LiquidityManager) -> bool {
        forall|m: Seq<char>| #[trigger] self.config.supports(m) ==> ledger.has_mint(m)
    }

    /// The coupling invariant with the ledger: on every mint, the reserved
    /// balance equals the sum of the output amounts of the non-terminal
    /// quotes targeting it.
    pub open spec fn consistent_with(self, ledger: LiquidityManager) -> bool {
        forall|m: Seq<char>|
            #[trigger] ledger.reserved_of(m) == quotes_reserved(self.quotes@, m)
    }

    /// A fresh coordinator with no quotes.
    pub fn new(config: BrokerConfig) -> (r: SwapCoordinator)
        requires
            config.wf(),
        ensures
            r.wf(),
            r.config == config,
            r.quotes@.len() == 0,
            r.executions@.len() == 0,
            forall|ledger: LiquidityManager| r.consistent_with(ledger)
                <==> forall|m: Seq<char>| #[trigger] ledger.reserved_of(m) == 0,
    {
        let r = SwapCoordinator { config, quotes: Vec::new(), executions: Vec::new() };
        proof {
            assert forall|ledger: LiquidityManager| r.consistent_with(ledger)
                <==> forall|m: Seq<char>| #[trigger] ledger.reserved_of(m) == 0 by {
                assert(forall|m: Seq<char>| quotes_reserved(r.quotes@, m) == 0);
            }
        }
        r
    }

    /// Whether the configuration lists a mint with this URL.
    fn config_supports(&self, url: &String) -> (r: bool)
        ensures
            r == self.config.supports(url@),
    {
        let n = self.config.mints.len();
        let mut k: usize = 0;
        while k < n
            invariant
                n == self.config.mints@.len(),
                k <= n,
                forall|j: int| 0 <= j < k ==> self.config.mints@[j].mint_url@ != url@,
            decreases n - k,
        {
            if self.config.mints[k].mint_url == *url {
                return true;
            }
            k += 1;
        }
        false
    }

    /// Find the index of the quote with this id.
    fn find_quote(&self, quote_id: &String) -> (r: Option<usize>)
        ensures
            match r {
                Some(i) => i < self.quotes@.len()
                    && self.quotes@[i as int].quote.quote_id@ == quote_id@
                    && self.has_quote(quote_id@),
                None => !self.has_quote(quote_id@),
            },
    {
        let n = self.quotes.len();
        let mut k: usize = 0;
        while k < n
            invariant
                n == self.quotes@.len(),
                k <= n,
                forall|j: int| 0 <= j < k ==> self.quotes@[j].quote.quote_id@ != quote_id@,
            decreases n - k,
        {
            if self.quotes[k].quote.quote_id == *quote_id {
                return Some(k);
            }
            k += 1;
        }
        None
    }

    /// Validate a swap request against the configuration, in the order the
    /// service reports failures: amount window, then mint support, then the
    /// two mints being distinct.
    fn validate_swap_request(&self, request: &SwapRequest) -> (r: Result<(), BrokerError>)
        ensures
            r is Ok <==> {
                &&& self.config.min_swap_amount <= request.amount
                &&& request.amount <= self.config.max_swap_amount
                &&& self.config.supports(request.from_mint@)
                &&& self.config.supports(request.to_mint@)
                &&& request.from_mint@ != request.to_mint@
            },
            request.amount < self.config.min_swap_amount
                ==> (r matches Err(BrokerError::AmountTooLow { amount, min })
                    && amount == request.amount && min == self.config.min_swap_amount),
            self.config.min_swap_amount <= request.amount
                && request.amount > self.config.max_swap_amount
                ==> (r matches Err(BrokerError::AmountTooHigh { amount, max })
                    && amount == request.amount && max == self.config.max_swap_amount),
            self.config.min_swap_amount <= request.amount
                && request.amount <= self.config.max_swap_amount
                && !self.config.supports(request.from_mint@)
                ==> (r matches Err(BrokerError::UnsupportedMint(u))
                    && u@ == request.from_mint@),
            self.config.min_swap_amount <= request.amount
                && request.amount <= self.config.max_swap_amount
                && self.config.supports(request.from_mint@)
                && !self.config.supports(request.to_mint@)
                ==> (r matches Err(BrokerError::UnsupportedMint(u)) && u@ == request.to_mint@),
            self.config.min_swap_amount <= request.amount
                && request.amount <= self.config.max_swap_amount
                && self.config.supports(request.from_mint@)
                && self.config.supports(request.to_mint@)
                && request.from_mint@ == request.to_mint@
                ==> r matches Err(BrokerError::SameMintSwap),
    {
        if request.amount < self.config.min_swap_amount {
            return Err(BrokerError::AmountTooLow {
                amount: request.amount,
                min: self.config.min_swap_amount,
            });
        }
        if request.amount > self.config.max_swap_amount {
            return Err(BrokerError::AmountTooHigh {
                amount: request.amount,
                max: self.config.max_swap_amount,
            });
        }
        if !self.config_supports(&request.from_mint) {
            return Err(BrokerError::UnsupportedMint(request.from_mint.clone()));
        }
        if !self.config_supports(&request.to_mint) {
            return Err(BrokerError::UnsupportedMint(request.to_mint.clone()));
        }
        if request.from_mint == request.to_mint {
            return Err(BrokerError::SameMintSwap);
        }
        Ok(())
    }

    /// The request passes every validation of `validate_swap_request`.
    pub open spec fn request_valid(self, request: SwapRequest) -> bool {
        &&& self.config.min_swap_amount <= request.amount
        &&& request.amount <= self.config.max_swap_amount
        &&& self.config.supports(request.from_mint@)
        &&& self.config.supports(request.to_mint@)
        &&& request.from_mint@ != request.to_mint@
    }

    /// The output amount this request would be quoted.
    pub open spec fn spec_request_output(self, request: SwapRequest) -> int {
        fee::spec_output(request.amount, self.config.fee_rate_ppm)
    }

    /// Price a request against the given fresh key material, reserve the
    /// output amount on the target mint, and record the new quote as
    /// `Pending`. Succeeds exactly when the request validates, the fee
    /// leaves a positive output, the target mint's available balance covers
    /// it, and the two public points admit a tweaked key; the first failing
    /// check is reported and a failure changes nothing.
    pub fn create_quote_with_keys(
        &mut self,
        request: &SwapRequest,
        ledger: &mut LiquidityManager,
        now: u64,
        quote_id: String,
        broker_key: Vec<u8>,
        adaptor_secret: Vec<u8>,
    ) -> (r: Result<SwapQuote, BrokerError>)
        requires
            old(self).wf(),
            old(ledger).wf(),
            old(self).consistent_with(*old(ledger)),
            old(self).mints_in_ledger(*old(ledger)),
            now + old(self).config.quote_expiry_seconds <= u64::MAX,
            adaptor::scalar_ok(broker_key@),
            adaptor::scalar_ok(adaptor_secret@),
            adaptor::scalar_sum(broker_key@, adaptor_secret@) is Some,
            quote_id@.len() == 32,
            !old(self).has_quote(quote_id@),
        ensures
            r is Ok <==> {
                &&& old(self).request_valid(*request)
                &&& old(self).spec_request_output(*request) > 0
                &&& old(ledger).available_of(request.to_mint@)
                    >= old(self).spec_request_output(*request)
                &&& adaptor::point_sum(adaptor::point_of(broker_key@),
                    adaptor::point_of(adaptor_secret@)) is Some
            },
            final(self).wf(),
            final(ledger).wf(),
            final(self).consistent_with(*final(ledger)),
            final(self).mints_in_ledger(*final(ledger)),
            final(self).config == old(self).config,
            old(ledger).same_mints(*final(ledger)),
            final(self).executions@ == old(self).executions@,
            r is Err ==> *final(self) == *old(self) && *final(ledger) == *old(ledger),
            request.amount < old(self).config.min_swap_amount
                ==> (r matches Err(BrokerError::AmountTooLow { amount, min })
                    && amount == request.amount && min == old(self).config.min_swap_amount),
            old(self).config.min_swap_amount <= request.amount
                && request.amount > old(self).config.max_swap_amount
                ==> (r matches Err(BrokerError::AmountTooHigh { amount, max })
                    && amount == request.amount && max == old(self).config.max_swap_amount),
            old(self).config.min_swap_amount <= request.amount
                && request.amount <= old(self).config.max_swap_amount
                && !old(self).config.supports(request.from_mint@)
                ==> (r matches Err(BrokerError::UnsupportedMint(u))
                    && u@ == request.from_mint@),
            old(self).config.min_swap_amount <= request.amount
                && request.amount <= old(self).config.max_swap_amount
                && old(self).config.supports(request.from_mint@)
                && !old(self).config.supports(request.to_mint@)
                ==> (r matches Err(BrokerError::UnsupportedMint(u)) && u@ == request.to_mint@),
            old(self).config.min_swap_amount <= request.amount
                && request.amount <= old(self).config.max_swap_amount
                && old(self).config.supports(request.from_mint@)
                && old(self).config.supports(request.to_mint@)
                && request.from_mint@ == request.to_mint@
                ==> r matches Err(BrokerError::SameMintSwap),
            old(self).request_valid(*request) && old(self).spec_request_output(*request) == 0
                ==> r matches Err(BrokerError::InvalidSwapRequest(_)),
            r matches Err(BrokerError::InsufficientLiquidity { mint_url, needed, available })
                ==> old(self).request_valid(*request)
                    && mint_url@ == request.to_mint@
                    && needed == old(self).spec_request_output(*request)
                    && available as int == old(ledger).available_of(request.to_mint@)
                    && available < needed,
            r matches Ok(q) ==> {
                &&& old(self).request_valid(*request)
                &&& q.from_mint@ == request.from_mint@
                &&& q.to_mint@ == request.to_mint@
                &&& q.input_amount == request.amount
                &&& q.fee == fee::spec_fee(request.amount, old(self).config.fee_rate_ppm)
                &&& q.output_amount == old(self).spec_request_output(*request)
                &&& q.output_amount > 0
                &&& q.fee_rate_ppm == old(self).config.fee_rate_ppm
                &&& q.status == SwapStatus::Pending
                &&& q.expires_in == old(self).config.quote_expiry_seconds
                &&& q.expires_at == now + old(self).config.quote_expiry_seconds
                &&& q.quote_id@.len() == 32
                &&& old(ledger).available_of(request.to_mint@) >= q.output_amount
                &&& final(ledger).available_of(request.to_mint@)
                    == old(ledger).available_of(request.to_mint@) - q.output_amount
                &&& final(ledger).reserved_of(request.to_mint@)
                    == old(ledger).reserved_of(request.to_mint@) + q.output_amount
                &&& forall|m: Seq<char>|
                    m != request.to_mint@ ==> #[trigger] final(ledger).available_of(m)
                        == old(ledger).available_of(m)
                        && final(ledger).reserved_of(m) == old(ledger).reserved_of(m)
                &&& final(self).quotes@.len() == old(self).quotes@.len() + 1
                &&& forall|i: int|
                    0 <= i < old(self).quotes@.len()
                        ==> #[trigger] final(self).quotes@[i] == old(self).quotes@[i]
                &&& final(self).quotes@.last().quote.quote_id@ == q.quote_id@
                &&& final(self).quotes@.last().quote.status == SwapStatus::Pending
                &&& final(self).quotes@.last().quote.to_mint@ == request.to_mint@
                &&& final(self).quotes@.last().quote.from_mint@ == request.from_mint@
                &&& final(self).quotes@.last().quote.output_amount == q.output_amount
                &&& final(self).quotes@.last().quote.input_amount == q.input_amount
                &&& final(self).quotes@.last().quote.expires_at == q.expires_at
            },
            r matches Ok(q) ==> q.quote_id@ == quote_id@
                && q.broker_public_key@ == adaptor::point_of(broker_key@)
                && q.adaptor_point@ == adaptor::point_of(adaptor_secret@),
            old(self).request_valid(*request) && old(self).spec_request_output(*request) > 0
                && adaptor::point_sum(adaptor::point_of(broker_key@),
                    adaptor::point_of(adaptor_secret@)) is None
                ==> r matches Err(BrokerError::AdaptorSignature(_)),
            old(self).request_valid(*request) && old(self).spec_request_output(*request) > 0
                && old(ledger).available_of(request.to_mint@)
                    < old(self).spec_request_output(*request)
                && adaptor::point_sum(adaptor::point_of(broker_key@),
                    adaptor::point_of(adaptor_secret@)) is Some
                ==> r matches Err(BrokerError::InsufficientLiquidity { .. }),
    {
        if let Err(e) = self.validate_swap_request(request) {
            return Err(e);
        }
        let fee_amt = fee::compute_fee(request.amount, self.config.fee_rate_ppm);
        let output_amount = request.amount - fee_amt;
        if output_amount == 0 {
            return Err(BrokerError::InvalidSwapRequest(
                "the fee consumes the whole amount".to_owned()));
        }

        let broker_pub = adaptor::point_from_secret(&broker_key).unwrap();
        let adaptor_point = adaptor::point_from_secret(&adaptor_secret).unwrap();
        let tweaked = match adaptor::point_add(&broker_pub, &adaptor_point) {
            Some(t) => t,
            None => {
                return Err(BrokerError::AdaptorSignature(
                    "tweaked key is the identity".to_owned()));
            },
        };

        if let Err(e) = ledger.reserve(&request.to_mint, output_amount, &quote_id, now) {
            return Err(e);
        }

        let expires_at = now + self.config.quote_expiry_seconds;
        let quote = SwapQuote {
            quote_id: quote_id.clone(),
            from_mint: request.from_mint.clone(),
            to_mint: request.to_mint.clone(),
            input_amount: request.amount,
            output_amount,
            fee: fee_amt,
            fee_rate_ppm: self.config.fee_rate_ppm,
            broker_public_key: copy_bytes(&broker_pub),
            adaptor_point: copy_bytes(&adaptor_point),
            tweaked_pubkey: Some(copy_bytes(&tweaked)),
            expires_in: self.config.quote_expiry_seconds,
            expires_at,
            status: SwapStatus::Pending,
        };
        let stored = QuoteData {
            quote: SwapQuote {
                quote_id,
                from_mint: request.from_mint.clone(),
                to_mint: request.to_mint.clone(),
                input_amount: request.amount,
                output_amount,
                fee: fee_amt,
                fee_rate_ppm: self.config.fee_rate_ppm,
                broker_public_key: broker_pub,
                adaptor_point,
                tweaked_pubkey: Some(tweaked),
                expires_in: self.config.quote_expiry_seconds,
                expires_at,
                status: SwapStatus::Pending,
            },
            broker_swap_key: broker_key,
            adaptor_secret,
        };
        let ghost pre_quotes = self.quotes@;
        let ghost mid_ledger = *ledger;
        self.quotes.push(stored);
        proof {
            let to = request.to_mint@;
            let qd = self.quotes@.last();
            assert forall|m: Seq<char>|
                #[trigger] ledger.reserved_of(m) == quotes_reserved(self.quotes@, m) by {
                lemma_quotes_reserved_push(pre_quotes, qd, m);
                assert(old(ledger).reserved_of(m) == quotes_reserved(pre_quotes, m));
                if m == to {
                    assert(quote_contrib(qd, m) == output_amount);
                } else {
                    assert(quote_contrib(qd, m) == 0);
                    assert(ledger.available_of(m) == old(ledger).available_of(m));
                }
            }
            assert forall|i: int, j: int|
                0 <= i < j < self.quotes@.len()
                    implies self.quotes@[i].quote.quote_id@
                        != self.quotes@[j].quote.quote_id@ by {
                if j == self.quotes@.len() - 1 {
                    assert(self.quotes@[i] == pre_quotes[i]);
                }
            }
        }
        Ok(quote)
    }

    /// Price a request, reserve its output amount on the target mint, and
    /// record the new quote as `Pending`, under fresh random key material:
    /// the broker's signing key and the adaptor secret are drawn anew for
    /// this quote and resampled until their sum is a usable spending
    /// scalar. The first failing check is reported; a failure changes
    /// nothing.
    pub fn create_quote(
        &mut self,
        request: &SwapRequest,
        ledger: &mut LiquidityManager,
        now: u64,
    ) -> (r: Result<SwapQuote, BrokerError>)
        requires
            old(self).wf(),
            old(ledger).wf(),
            old(self).consistent_with(*old(ledger)),
            old(self).mints_in_ledger(*old(ledger)),
            now + old(self).config.quote_expiry_seconds <= u64::MAX,
        ensures
            final(self).wf(),
            final(ledger).wf(),
            final(self).consistent_with(*final(ledger)),
            final(self).mints_in_ledger(*final(ledger)),
            final(self).config == old(self).config,
            old(ledger).same_mints(*final(ledger)),
            final(self).executions@ == old(self).executions@,
            r is Err ==> *final(self) == *old(self) && *final(ledger) == *old(ledger),
            request.amount < old(self).config.min_swap_amount
                ==> (r matches Err(BrokerError::AmountTooLow { amount, min })
                    && amount == request.amount && min == old(self).config.min_swap_amount),
            old(self).config.min_swap_amount <= request.amount
                && request.amount > old(self).config.max_swap_amount
                ==> (r matches Err(BrokerError::AmountTooHigh { amount, max })
                    && amount == request.amount && max == old(self).config.max_swap_amount),
            old(self).config.min_swap_amount <= request.amount
                && request.amount <= old(self).config.max_swap_amount
                && !old(self).config.supports(request.from_mint@)
                ==> (r matches Err(BrokerError::UnsupportedMint(u))
                    && u@ == request.from_mint@),
            old(self).config.min_swap_amount <= request.amount
                && request.amount <= old(self).config.max_swap_amount
                && old(self).config.supports(request.from_mint@)
                && !old(self).config.supports(request.to_mint@)
                ==> (r matches Err(BrokerError::UnsupportedMint(u)) && u@ == request.to_mint@),
            old(self).config.min_swap_amount <= request.amount
                && request.amount <= old(self).config.max_swap_amount
                && old(self).config.supports(request.from_mint@)
                && old(self).config.supports(request.to_mint@)
                && request.from_mint@ == request.to_mint@
                ==> r matches Err(BrokerError::SameMintSwap),
            old(self).request_valid(*request) && old(self).spec_request_output(*request) == 0
                ==> r matches Err(BrokerError::InvalidSwapRequest(_)),
            r matches Err(BrokerError::InsufficientLiquidity { mint_url, needed, available })
                ==> old(self).request_valid(*request)
                    && mint_url@ == request.to_mint@
                    && needed == old(self).spec_request_output(*request)
                    && available as int == old(ledger).available_of(request.to_mint@)
                    && available < needed,
            r matches Ok(q) ==> {
                &&& old(self).request_valid(*request)
                &&& q.from_mint@ == request.from_mint@
                &&& q.to_mint@ == request.to_mint@
                &&& q.input_amount == request.amount
                &&& q.fee == fee::spec_fee(request.amount, old(self).config.fee_rate_ppm)
                &&& q.output_amount == old(self).spec_request_output(*request)
                &&& q.output_amount > 0
                &&& q.fee_rate_ppm == old(self).config.fee_rate_ppm
                &&& q.status == SwapStatus::Pending
                &&& q.expires_in == old(self).config.quote_expiry_seconds
                &&& q.expires_at == now + old(self).config.quote_expiry_seconds
                &&& q.quote_id@.len() == 32
                &&& old(ledger).available_of(request.to_mint@) >= q.output_amount
                &&& final(ledger).available_of(request.to_mint@)
                    == old(ledger).available_of(request.to_mint@) - q.output_amount
                &&& final(ledger).reserved_of(request.to_mint@)
                    == old(ledger).reserved_of(request.to_mint@) + q.output_amount
                &&& forall|m: Seq<char>|
                    m != request.to_mint@ ==> #[trigger] final(ledger).available_of(m)
                        == old(ledger).available_of(m)
                        && final(ledger).reserved_of(m) == old(ledger).reserved_of(m)
                &&& final(self).quotes@.len() == old(self).quotes@.len() + 1
                &&& forall|i: int|
                    0 <= i < old(self).quotes@.len()
                        ==> #[trigger] final(self).quotes@[i] == old(self).quotes@[i]
                &&& final(self).quotes@.last().quote.quote_id@ == q.quote_id@
                &&& final(self).quotes@.last().quote.status == SwapStatus::Pending
                &&& final(self).quotes@.last().quote.to_mint@ == request.to_mint@
                &&& final(self).quotes@.last().quote.from_mint@ == request.from_mint@
                &&& final(self).quotes@.last().quote.output_amount == q.output_amount
                &&& final(self).quotes@.last().quote.input_amount == q.input_amount
                &&& final(self).quotes@.last().quote.expires_at == q.expires_at
            },
            old(self).request_valid(*request) && old(self).spec_request_output(*request) > 0
                && old(ledger).available_of(request.to_mint@)
                    >= old(self).spec_request_output(*request)
                ==> r is Ok || r matches Err(BrokerError::AdaptorSignature(_))
                    || r matches Err(BrokerError::InvalidSwapRequest(_)),
            old(self).request_valid(*request) && old(self).spec_request_output(*request) > 0
                && old(ledger).available_of(request.to_mint@)
                    < old(self).spec_request_output(*request)
                ==> r matches Err(BrokerError::InsufficientLiquidity { .. })
                    || r matches Err(BrokerError::AdaptorSignature(_))
                    || r matches Err(BrokerError::InvalidSwapRequest(_)),
    {
        if let Err(e) = self.validate_swap_request(request) {
            return Err(e);
        }
        let fee_amt = fee::compute_fee(request.amount, self.config.fee_rate_ppm);
        if request.amount - fee_amt == 0 {
            return Err(BrokerError::InvalidSwapRequest(
                "the fee consumes the whole amount".to_owned()));
        }

        // Fresh key material; resample until the combined spending scalar
        // exists (the sum of the two scalars is non-zero).
        let mut broker_key: Vec<u8> = adaptor::random_scalar();
        let mut adaptor_secret: Vec<u8> = adaptor::random_scalar();
        let mut sum_ok: bool = adaptor::scalar_add(&broker_key, &adaptor_secret).is_some();
        let mut attempts: usize = 0;
        while !sum_ok && attempts < 64
            invariant
                broker_key@.len() == 32,
                adaptor_secret@.len() == 32,
                adaptor::scalar_ok(broker_key@),
                adaptor::scalar_ok(adaptor_secret@),
                sum_ok ==> adaptor::scalar_sum(broker_key@, adaptor_secret@) is Some,
            decreases 64 - attempts,
        {
            broker_key = adaptor::random_scalar();
            adaptor_secret = adaptor::random_scalar();
            sum_ok = adaptor::scalar_add(&broker_key, &adaptor_secret).is_some();
            attempts += 1;
        }
        if !sum_ok {
            return Err(BrokerError::AdaptorSignature(
                "could not derive a usable key pair".to_owned()));
        }

        // A fresh 128-bit identifier, re-drawn on the astronomically
        // unlikely collision.
        let mut quote_id = codec::generate_quote_id();
        let mut id_attempts: usize = 0;
        while self.find_quote(&quote_id).is_some() && id_attempts < 16
            invariant
                quote_id@.len() == 32,
            decreases 16 - id_attempts,
        {
            quote_id = codec::generate_quote_id();
            id_attempts += 1;
        }
        if self.find_quote(&quote_id).is_some() {
            return Err(BrokerError::InvalidSwapRequest(
                "could not allocate a fresh quote id".to_owned()));
        }

        self.create_quote_with_keys(request, ledger, now, quote_id, broker_key, adaptor_secret)
    }
}

/// What the mint-side worker must do to accept a quote: mint `amount` on
/// `mint_url`, locked to `lock_pubkey` (the client's key plus the adaptor
/// point), and hand the client the encrypted signature binding the broker to
/// the swap.
pub struct PrepareAction {
    pub mint_url: String,
    pub amount: u64,
    /// P2PK lock target: client key + adaptor point, compressed.
    pub lock_pubkey: Vec<u8>,
    /// The message the encrypted signature signs.
    pub binding_message: Vec<u8>,
    /// `adaptor_sign(broker_key, T, binding_message)`.
    pub encrypted_signature: EncSig,
}

/// What the mint-side worker must do to complete a swap: swap the client's
/// witnessed proofs of `amount` at `mint_url`, signing under `spend_key`.
pub struct CompleteAction {
    pub mint_url: String,
    pub amount: u64,
    /// The combined spending scalar `broker_key + adaptor_secret`, whose
    /// public point is the tweaked broker key the client's proofs are locked
    /// to.
    pub spend_key: Vec<u8>,
}

/// A quote whose mint-side tokens may need manual reclaiming: it was
/// accepted — tokens were minted and locked for the client — but ended
/// `Expired` or `Failed` without the swap completing.
pub struct ReclaimAction {
    pub quote_id: String,
    /// The mint the locked tokens sit on (the quote's target mint).
    pub mint_url: String,
    /// The locked amount (the quote's output amount).
    pub amount: u64,
}

/// Field-preserving single steps of the whole quote list: ids, mints and
/// amounts unchanged, every status change a legal step of the state machine.
pub open spec fn steps_from(pre: Seq<QuoteData>, post: Seq<QuoteData>) -> bool {
    &&& post.len() == pre.len()
    &&& forall|i: int|
        0 <= i < pre.len() ==> {
            &&& (#[trigger] post[i]).quote.quote_id@ == pre[i].quote.quote_id@
            &&& post[i].quote.to_mint@ == pre[i].quote.to_mint@
            &&& post[i].quote.from_mint@ == pre[i].quote.from_mint@
            &&& post[i].quote.input_amount == pre[i].quote.input_amount
            &&& post[i].quote.output_amount == pre[i].quote.output_amount
            &&& post[i].quote.fee == pre[i].quote.fee
            &&& post[i].quote.expires_at == pre[i].quote.expires_at
            &&& pre[i].quote.status.can_step(post[i].quote.status)
        }
}

/// Number of quotes that are due for the reaper: non-terminal and past
/// their expiry.
pub open spec fn due_count(qs: Seq<QuoteData>, now: u64) -> int
    decreases qs.len(),
{
    if qs.len() == 0 {
        0
    } else {
        due_count(qs.drop_last(), now) + if qs.last().quote.status.holds_reservation()
            && qs.last().quote.expires_at < now { 1int } else { 0int }
    }
}

impl SwapCoordinator {
    /// Validate a client's acceptance of a pending quote and compute the
    /// mint-side work: the P2PK lock key `client + T` and the broker's
    /// encrypted signature over the quote id. Mutates nothing;
    /// [`Self::prepare_swap_finish`] applies the outcome of the mint call.
    pub fn prepare_swap(&self, quote_id: &String, client_pubkey: &Vec<u8>, now: u64) -> (r:
        Result<PrepareAction, BrokerError>)
        requires
            self.wf(),
        ensures
            !self.has_quote(quote_id@) ==> (r matches Err(BrokerError::QuoteNotFound(id))
                && id@ == quote_id@),
            self.has_quote(quote_id@)
                && self.quotes@[self.qidx(quote_id@)].quote.status != SwapStatus::Pending
                ==> r matches Err(BrokerError::InvalidSwapRequest(_)),
            self.has_quote(quote_id@)
                && self.quotes@[self.qidx(quote_id@)].quote.status == SwapStatus::Pending
                && self.quotes@[self.qidx(quote_id@)].quote.expires_at < now
                ==> (r matches Err(BrokerError::QuoteExpired(id)) && id@ == quote_id@),
            self.has_quote(quote_id@)
                && self.quotes@[self.qidx(quote_id@)].quote.status == SwapStatus::Pending
                && self.quotes@[self.qidx(quote_id@)].quote.expires_at >= now
                && !adaptor::point_ok(client_pubkey@)
                ==> r matches Err(BrokerError::AdaptorSignature(_)),
            self.has_quote(quote_id@)
                && self.quotes@[self.qidx(quote_id@)].quote.status == SwapStatus::Pending
                && self.quotes@[self.qidx(quote_id@)].quote.expires_at >= now
                && adaptor::point_ok(client_pubkey@)
                && adaptor::point_sum(client_pubkey@,
                    self.quotes@[self.qidx(quote_id@)].quote.adaptor_point@) is Some
                ==> r is Ok,
            r matches Ok(a) ==> {
                let qd = self.quotes@[self.qidx(quote_id@)];
                &&& self.has_quote(quote_id@)
                &&& qd.quote.status == SwapStatus::Pending
                &&& qd.quote.expires_at >= now
                &&& adaptor::point_ok(client_pubkey@)
                &&& a.mint_url@ == qd.quote.to_mint@
                &&& a.amount == qd.quote.output_amount
                &&& Some(a.lock_pubkey@) == adaptor::point_sum(client_pubkey@,
                    qd.quote.adaptor_point@)
                &&& a.encrypted_signature.wf()
                &&& a.encrypted_signature.parses()
                &&& a.encrypted_signature@ == adaptor::enc_sign_of(qd.broker_swap_key@,
                    qd.quote.adaptor_point@, a.binding_message@)
            },
    {
        let i = match self.find_quote(quote_id) {
            None => {
                return Err(BrokerError::QuoteNotFound(quote_id.clone()));
            },
            Some(i) => i,
        };
        let ghost w = self.qidx(quote_id@);
        assert(self.quotes@[w].quote.quote_id@ == quote_id@);
        assert(i as int == w);
        if !matches!(self.quotes[i].quote.status, SwapStatus::Pending) {
            return Err(BrokerError::InvalidSwapRequest("quote is not pending".to_owned()));
        }
        if self.quotes[i].quote.expires_at < now {
            return Err(BrokerError::QuoteExpired(quote_id.clone()));
        }
        if !adaptor::point_check(client_pubkey) {
            return Err(BrokerError::AdaptorSignature("invalid client key".to_owned()));
        }
        let lock_pubkey = match adaptor::point_add(client_pubkey, &self.quotes[i].quote
            .adaptor_point) {
            Some(p) => p,
            None => {
                return Err(BrokerError::AdaptorSignature(
                    "tweaked client key is the identity".to_owned()));
            },
        };
        let binding_message = vstd::slice::slice_to_vec(quote_id.as_str().as_bytes());
        let encrypted_signature = adaptor::adaptor_sign(
            &self.quotes[i].broker_swap_key,
            &self.quotes[i].quote.adaptor_point,
            &binding_message,
        ).unwrap();
        Ok(PrepareAction {
            mint_url: self.quotes[i].quote.to_mint.clone(),
            amount: self.quotes[i].quote.output_amount,
            lock_pubkey,
            binding_message,
            encrypted_signature,
        })
    }

    /// Record the outcome of the mint call that `prepare_swap` requested:
    /// on success the quote becomes `Accepted` and an execution record is
    /// opened; on failure it becomes `Failed` and its reservation is
    /// released.
    pub fn prepare_swap_finish(
        &mut self,
        quote_id: &String,
        minted_ok: bool,
        broker_tokens: Vec<u8>,
        ledger: &mut LiquidityManager,
        now: u64,
    ) -> (r: Result<(), BrokerError>)
        requires
            old(self).wf(),
            old(ledger).wf(),
            old(self).consistent_with(*old(ledger)),
            old(self).mints_in_ledger(*old(ledger)),
        ensures
            final(self).wf(),
            final(ledger).wf(),
            final(self).consistent_with(*final(ledger)),
            final(self).mints_in_ledger(*final(ledger)),
            final(self).config == old(self).config,
            old(ledger).same_mints(*final(ledger)),
            steps_from(old(self).quotes@, final(self).quotes@),
            !old(self).has_quote(quote_id@) ==> (r matches Err(BrokerError::QuoteNotFound(id))
                && id@ == quote_id@ && *final(self) == *old(self)
                && *final(ledger) == *old(ledger)),
            old(self).has_quote(quote_id@)
                && old(self).quotes@[old(self).qidx(quote_id@)].quote.status
                    != SwapStatus::Pending
                ==> (r matches Err(BrokerError::InvalidSwapRequest(_))
                    && *final(self) == *old(self) && *final(ledger) == *old(ledger)),
            old(self).has_quote(quote_id@)
                && old(self).quotes@[old(self).qidx(quote_id@)].quote.status
                    == SwapStatus::Pending
                && minted_ok ==> {
                let i = old(self).qidx(quote_id@);
                &&& r is Ok
                &&& final(self).quotes@[i].quote.status == SwapStatus::Accepted
                &&& forall|k: int|
                    0 <= k < old(self).quotes@.len() && k != i
                        ==> #[trigger] final(self).quotes@[k] == old(self).quotes@[k]
                &&& *final(ledger) == *old(ledger)
                &&& final(self).executions@.len() == old(self).executions@.len() + 1
                &&& forall|k: int|
                    0 <= k < old(self).executions@.len()
                        ==> #[trigger] final(self).executions@[k] == old(self).executions@[k]
                &&& final(self).executions@.last().quote_id@ == quote_id@
                &&& final(self).executions@.last().client_tokens@.len() == 0
                &&& final(self).executions@.last().broker_tokens@ == broker_tokens@
                &&& final(self).executions@.last().client_swap_complete == false
                &&& final(self).executions@.last().broker_swap_complete == false
                &&& final(self).executions@.last().completed_at is None
            },
            old(self).has_quote(quote_id@)
                && old(self).quotes@[old(self).qidx(quote_id@)].quote.status
                    == SwapStatus::Pending
                && !minted_ok ==> {
                let i = old(self).qidx(quote_id@);
                let to = old(self).quotes@[i].quote.to_mint@;
                let out = old(self).quotes@[i].quote.output_amount;
                &&& r is Ok
                &&& final(self).quotes@[i].quote.status == SwapStatus::Failed
                &&& forall|k: int|
                    0 <= k < old(self).quotes@.len() && k != i
                        ==> #[trigger] final(self).quotes@[k] == old(self).quotes@[k]
                &&& final(ledger).reserved_of(to) == old(ledger).reserved_of(to) - out
                &&& final(ledger).available_of(to) == old(ledger).available_of(to) + out
                &&& final(self).executions@ == old(self).executions@
            },
    {
        let i = match self.find_quote(quote_id) {
            None => {
                return Err(BrokerError::QuoteNotFound(quote_id.clone()));
            },
            Some(i) => i,
        };
        let ghost w = self.qidx(quote_id@);
        assert(self.quotes@[w].quote.quote_id@ == quote_id@);
        assert(i as int == w);
        if !matches!(self.quotes[i].quote.status, SwapStatus::Pending) {
            return Err(BrokerError::InvalidSwapRequest("quote is not pending".to_owned()));
        }
        let ghost pre = *self;
        if minted_ok {
            self.quotes[i].quote.status = SwapStatus::Accepted;
            self.executions.push(SwapExecution {
                quote_id: quote_id.clone(),
                client_tokens: Vec::new(),
                broker_tokens,
                client_swap_complete: false,
                broker_swap_complete: false,
                completed_at: None,
            });
            proof {
                assert forall|m: Seq<char>|
                    #[trigger] ledger.reserved_of(m) == old(ledger).reserved_of(m)
                        + quote_contrib(self.quotes@[i as int], m)
                        - quote_contrib(pre.quotes@[i as int], m) by {
                    assert(quote_contrib(self.quotes@[i as int], m)
                        == quote_contrib(pre.quotes@[i as int], m));
                }
                self.lemma_status_only_update(pre, i as int, *old(ledger), *ledger);
            }
            Ok(())
        } else {
            let to_mint = self.quotes[i].quote.to_mint.clone();
            let out = self.quotes[i].quote.output_amount;
            proof {
                lemma_quotes_reserved_ge_contrib(self.quotes@, i as int, to_mint@);
            }
            let rel = ledger.release(&to_mint, out, quote_id, now);
            assert(rel is Ok);
            self.quotes[i].quote.status = SwapStatus::Failed;
            proof {
                assert forall|m: Seq<char>|
                    #[trigger] ledger.reserved_of(m) == old(ledger).reserved_of(m)
                        + quote_contrib(self.quotes@[i as int], m)
                        - quote_contrib(pre.quotes@[i as int], m) by {
                    assert(quote_contrib(self.quotes@[i as int], m) == 0);
                    if m != to_mint@ {
                        assert(quote_contrib(pre.quotes@[i as int], m) == 0);
                        assert(ledger.available_of(m) == old(ledger).available_of(m));
                    }
                }
                self.lemma_status_only_update(pre, i as int, *old(ledger), *ledger);
            }
            Ok(())
        }
    }

    /// Validate the client's side of an accepted swap and compute the
    /// mint-side work: the witnessed proofs must sum to the quoted input
    /// amount, and the broker spends under the combined scalar
    /// `broker_key + adaptor_secret`. Mutates nothing;
    /// [`Self::complete_swap_finish`] applies the outcome of the mint call.
    pub fn complete_swap_begin(
        &self,
        quote_id: &String,
        proof_amounts: &Vec<u64>,
        witness_valid: bool,
        now: u64,
    ) -> (r: Result<CompleteAction, BrokerError>)
        requires
            self.wf(),
        ensures
            !self.has_quote(quote_id@) ==> (r matches Err(BrokerError::QuoteNotFound(id))
                && id@ == quote_id@),
            self.has_quote(quote_id@)
                && self.quotes@[self.qidx(quote_id@)].quote.status != SwapStatus::Accepted
                ==> r matches Err(BrokerError::InvalidSwapRequest(_)),
            self.has_quote(quote_id@)
                && self.quotes@[self.qidx(quote_id@)].quote.status == SwapStatus::Accepted
                && self.quotes@[self.qidx(quote_id@)].quote.expires_at < now
                ==> (r matches Err(BrokerError::QuoteExpired(id)) && id@ == quote_id@),
            self.has_quote(quote_id@)
                && self.quotes@[self.qidx(quote_id@)].quote.status == SwapStatus::Accepted
                && self.quotes@[self.qidx(quote_id@)].quote.expires_at >= now
                && !witness_valid ==> r matches Err(BrokerError::InvalidWitness),
            self.has_quote(quote_id@)
                && self.quotes@[self.qidx(quote_id@)].quote.status == SwapStatus::Accepted
                && self.quotes@[self.qidx(quote_id@)].quote.expires_at >= now
                && witness_valid
                && sum_amounts(proof_amounts@)
                    != self.quotes@[self.qidx(quote_id@)].quote.input_amount
                ==> (r matches Err(BrokerError::AmountMismatch { expected, actual })
                    && expected == self.quotes@[self.qidx(quote_id@)].quote.input_amount),
            self.has_quote(quote_id@)
                && self.quotes@[self.qidx(quote_id@)].quote.status == SwapStatus::Accepted
                && self.quotes@[self.qidx(quote_id@)].quote.expires_at >= now
                && witness_valid
                && sum_amounts(proof_amounts@)
                    == self.quotes@[self.qidx(quote_id@)].quote.input_amount
                ==> r is Ok,
            r matches Ok(a) ==> {
                let qd = self.quotes@[self.qidx(quote_id@)];
                &&& self.has_quote(quote_id@)
                &&& qd.quote.status == SwapStatus::Accepted
                &&& qd.quote.expires_at >= now
                &&& witness_valid
                &&& sum_amounts(proof_amounts@) == qd.quote.input_amount
                &&& a.mint_url@ == qd.quote.from_mint@
                &&& a.amount == qd.quote.input_amount
                &&& Some(a.spend_key@) == adaptor::scalar_sum(qd.broker_swap_key@,
                    qd.adaptor_secret@)
                &&& (qd.quote.tweaked_pubkey matches Some(t)
                    && t@ == adaptor::point_of(a.spend_key@))
            },
    {
        let i = match self.find_quote(quote_id) {
            None => {
                return Err(BrokerError::QuoteNotFound(quote_id.clone()));
            },
            Some(i) => i,
        };
        let ghost w = self.qidx(quote_id@);
        assert(self.quotes@[w].quote.quote_id@ == quote_id@);
        assert(i as int == w);
        if !matches!(self.quotes[i].quote.status, SwapStatus::Accepted) {
            return Err(BrokerError::InvalidSwapRequest("quote is not accepted".to_owned()));
        }
        if self.quotes[i].quote.expires_at < now {
            return Err(BrokerError::QuoteExpired(quote_id.clone()));
        }
        if !witness_valid {
            return Err(BrokerError::InvalidWitness);
        }
        let total = sum_proof_amounts(proof_amounts);
        let expected = self.quotes[i].quote.input_amount;
        if total != (expected as u128) {
            let actual: u64 = if total > (u64::MAX as u128) {
                u64::MAX
            } else {
                total as u64
            };
            return Err(BrokerError::AmountMismatch { expected, actual });
        }
        let spend_key = adaptor::scalar_add(
            &self.quotes[i].broker_swap_key,
            &self.quotes[i].adaptor_secret,
        ).unwrap();
        Ok(CompleteAction {
            mint_url: self.quotes[i].quote.from_mint.clone(),
            amount: expected,
            spend_key,
        })
    }

    /// Record the outcome of the mint swap that `complete_swap_begin`
    /// requested. On success the reservation is committed — the target
    /// mint's reserve drops by the output amount, the source mint gains the
    /// input amount — and the quote becomes `Completed`; its execution
    /// record is closed. On failure (including a source balance that cannot
    /// hold the credit) the quote becomes `Failed` and its reservation is
    /// released.
    pub fn complete_swap_finish(
        &mut self,
        quote_id: &String,
        swap_ok: bool,
        ledger: &mut LiquidityManager,
        now: u64,
    ) -> (r: Result<(), BrokerError>)
        requires
            old(self).wf(),
            old(ledger).wf(),
            old(self).consistent_with(*old(ledger)),
            old(self).mints_in_ledger(*old(ledger)),
        ensures
            final(self).wf(),
            final(ledger).wf(),
            final(self).consistent_with(*final(ledger)),
            final(self).mints_in_ledger(*final(ledger)),
            final(self).config == old(self).config,
            old(ledger).same_mints(*final(ledger)),
            steps_from(old(self).quotes@, final(self).quotes@),
            !old(self).has_quote(quote_id@) ==> (r matches Err(BrokerError::QuoteNotFound(id))
                && id@ == quote_id@ && *final(self) == *old(self)
                && *final(ledger) == *old(ledger)),
            old(self).has_quote(quote_id@)
                && old(self).quotes@[old(self).qidx(quote_id@)].quote.status
                    != SwapStatus::Accepted
                ==> (r matches Err(BrokerError::InvalidSwapRequest(_))
                    && *final(self) == *old(self) && *final(ledger) == *old(ledger)),
            old(self).has_quote(quote_id@)
                && old(self).quotes@[old(self).qidx(quote_id@)].quote.status
                    == SwapStatus::Accepted
                && swap_ok
                && old(ledger).available_of(
                    old(self).quotes@[old(self).qidx(quote_id@)].quote.from_mint@)
                    + old(ledger).reserved_of(
                    old(self).quotes@[old(self).qidx(quote_id@)].quote.from_mint@)
                    + old(self).quotes@[old(self).qidx(quote_id@)].quote.input_amount
                    <= u64::MAX ==> {
                let i = old(self).qidx(quote_id@);
                let to = old(self).quotes@[i].quote.to_mint@;
                let from = old(self).quotes@[i].quote.from_mint@;
                let out = old(self).quotes@[i].quote.output_amount;
                let inp = old(self).quotes@[i].quote.input_amount;
                &&& r is Ok
                &&& final(self).quotes@[i].quote.status == SwapStatus::Completed
                &&& forall|k: int|
                    0 <= k < old(self).quotes@.len() && k != i
                        ==> #[trigger] final(self).quotes@[k] == old(self).quotes@[k]
                &&& final(ledger).reserved_of(to) == old(ledger).reserved_of(to) - out
                &&& final(ledger).available_of(to) == old(ledger).available_of(to)
                &&& final(ledger).available_of(from) == old(ledger).available_of(from) + inp
                &&& final(ledger).reserved_of(from) == old(ledger).reserved_of(from)
            },
            old(self).has_quote(quote_id@)
                && old(self).quotes@[old(self).qidx(quote_id@)].quote.status
                    == SwapStatus::Accepted
                && !swap_ok ==> {
                let i = old(self).qidx(quote_id@);
                let to = old(self).quotes@[i].quote.to_mint@;
                let out = old(self).quotes@[i].quote.output_amount;
                &&& r is Ok
                &&& final(self).quotes@[i].quote.status == SwapStatus::Failed
                &&& final(ledger).reserved_of(to) == old(ledger).reserved_of(to) - out
                &&& final(ledger).available_of(to) == old(ledger).available_of(to) + out
            },
            old(self).has_quote(quote_id@)
                && old(self).quotes@[old(self).qidx(quote_id@)].quote.status
                    == SwapStatus::Accepted
                && swap_ok
                && old(ledger).available_of(
                    old(self).quotes@[old(self).qidx(quote_id@)].quote.from_mint@)
                    + old(ledger).reserved_of(
                    old(self).quotes@[old(self).qidx(quote_id@)].quote.from_mint@)
                    + old(self).quotes@[old(self).qidx(quote_id@)].quote.input_amount
                    > u64::MAX ==> {
                let i = old(self).qidx(quote_id@);
                let to = old(self).quotes@[i].quote.to_mint@;
                let out = old(self).quotes@[i].quote.output_amount;
                &&& r is Err
                &&& final(self).quotes@[i].quote.status == SwapStatus::Failed
                &&& final(ledger).reserved_of(to) == old(ledger).reserved_of(to) - out
                &&& final(ledger).available_of(to) == old(ledger).available_of(to) + out
            },
    {
        let i = match self.find_quote(quote_id) {
            None => {
                return Err(BrokerError::QuoteNotFound(quote_id.clone()));
            },
            Some(i) => i,
        };
        let ghost w = self.qidx(quote_id@);
        assert(self.quotes@[w].quote.quote_id@ == quote_id@);
        assert(i as int == w);
        if !matches!(self.quotes[i].quote.status, SwapStatus::Accepted) {
            return Err(BrokerError::InvalidSwapRequest("quote is not accepted".to_owned()));
        }
        let to_mint = self.quotes[i].quote.to_mint.clone();
        let from_mint = self.quotes[i].quote.from_mint.clone();
        let out = self.quotes[i].quote.output_amount;
        let inp = self.quotes[i].quote.input_amount;
        let ghost pre = *self;
        proof {
            lemma_quotes_reserved_ge_contrib(self.quotes@, i as int, to_mint@);
        }
        if swap_ok {
            match ledger.commit(&to_mint, out, &from_mint, inp, quote_id, now) {
                Ok(()) => {
                    self.quotes[i].quote.status = SwapStatus::Completed;
                    self.close_execution(quote_id, now);
                    proof {
                        assert forall|m: Seq<char>|
                            #[trigger] ledger.reserved_of(m) == old(ledger).reserved_of(m)
                                + quote_contrib(self.quotes@[i as int], m)
                                - quote_contrib(pre.quotes@[i as int], m) by {
                            assert(quote_contrib(self.quotes@[i as int], m) == 0);
                            if m != to_mint@ {
                                assert(quote_contrib(pre.quotes@[i as int], m) == 0);
                                if m != from_mint@ {
                                    assert(ledger.available_of(m)
                                        == old(ledger).available_of(m));
                                }
                            }
                        }
                        self.lemma_status_only_update(pre, i as int, *old(ledger), *ledger);
                    }
                    Ok(())
                },
                Err(e) => {
                    let rel = ledger.release(&to_mint, out, quote_id, now);
                    assert(rel is Ok);
                    self.quotes[i].quote.status = SwapStatus::Failed;
                    proof {
                        assert forall|m: Seq<char>|
                            #[trigger] ledger.reserved_of(m) == old(ledger).reserved_of(m)
                                + quote_contrib(self.quotes@[i as int], m)
                                - quote_contrib(pre.quotes@[i as int], m) by {
                            assert(quote_contrib(self.quotes@[i as int], m) == 0);
                            if m != to_mint@ {
                                assert(quote_contrib(pre.quotes@[i as int], m) == 0);
                                assert(ledger.available_of(m) == old(ledger).available_of(m));
                            }
                        }
                        self.lemma_status_only_update(pre, i as int, *old(ledger), *ledger);
                    }
                    Err(e)
                },
            }
        } else {
            let rel = ledger.release(&to_mint, out, quote_id, now);
            assert(rel is Ok);
            self.quotes[i].quote.status = SwapStatus::Failed;
            proof {
                assert forall|m: Seq<char>|
                    #[trigger] ledger.reserved_of(m) == old(ledger).reserved_of(m)
                        + quote_contrib(self.quotes@[i as int], m)
                        - quote_contrib(pre.quotes@[i as int], m) by {
                    assert(quote_contrib(self.quotes@[i as int], m) == 0);
                    if m != to_mint@ {
                        assert(quote_contrib(pre.quotes@[i as int], m) == 0);
                        assert(ledger.available_of(m) == old(ledger).available_of(m));
                    }
                }
                self.lemma_status_only_update(pre, i as int, *old(ledger), *ledger);
            }
            Ok(())
        }
    }

    /// Mark every execution record of this quote complete.
    fn close_execution(&mut self, quote_id: &String, now: u64)
        ensures
            final(self).config == old(self).config,
            final(self).quotes == old(self).quotes,
            final(self).executions@.len() == old(self).executions@.len(),
            forall|k: int|
                0 <= k < old(self).executions@.len()
                    && old(self).executions@[k].quote_id@ != quote_id@
                    ==> #[trigger] final(self).executions@[k] == old(self).executions@[k],
            forall|k: int|
                0 <= k < old(self).executions@.len()
                    && old(self).executions@[k].quote_id@ == quote_id@ ==> {
                    &&& (#[trigger] final(self).executions@[k]).client_swap_complete
                    &&& final(self).executions@[k].broker_swap_complete
                    &&& final(self).executions@[k].completed_at == Some(now)
                    &&& final(self).executions@[k].quote_id@
                        == old(self).executions@[k].quote_id@
                },
    {
        let n = self.executions.len();
        let mut k: usize = 0;
        while k < n
            invariant
                n == self.executions@.len(),
                k <= n,
                self.config == old(self).config,
                self.quotes == old(self).quotes,
                forall|j: int|
                    k <= j < n ==> #[trigger] self.executions@[j] == old(self).executions@[j],
                forall|j: int|
                    0 <= j < k && old(self).executions@[j].quote_id@ != quote_id@
                        ==> #[trigger] self.executions@[j] == old(self).executions@[j],
                forall|j: int|
                    0 <= j < k && old(self).executions@[j].quote_id@ == quote_id@ ==> {
                        &&& (#[trigger] self.executions@[j]).client_swap_complete
                        &&& self.executions@[j].broker_swap_complete
                        &&& self.executions@[j].completed_at == Some(now)
                        &&& self.executions@[j].quote_id@
                            == old(self).executions@[j].quote_id@
                    },
            decreases n - k,
        {
            if self.executions[k].quote_id == *quote_id {
                self.executions[k].client_swap_complete = true;
                self.executions[k].broker_swap_complete = true;
                self.executions[k].completed_at = Some(now);
            }
            k += 1;
        }
    }

    /// Expire every quote that is past its expiry and still non-terminal:
    /// its status becomes `Expired` and its reservation returns to the
    /// available balance. Afterwards no overdue quote holds a reservation.
    /// Returns how many quotes were reaped.
    pub fn reap_expired(&mut self, ledger: &mut LiquidityManager, now: u64) -> (count: usize)
        requires
            old(self).wf(),
            old(ledger).wf(),
            old(self).consistent_with(*old(ledger)),
            old(self).mints_in_ledger(*old(ledger)),
        ensures
            final(self).wf(),
            final(ledger).wf(),
            final(self).consistent_with(*final(ledger)),
            final(self).mints_in_ledger(*final(ledger)),
            final(self).config == old(self).config,
            old(ledger).same_mints(*final(ledger)),
            final(self).executions@ == old(self).executions@,
            steps_from(old(self).quotes@, final(self).quotes@),
            forall|i: int|
                0 <= i < old(self).quotes@.len()
                    && (#[trigger] old(self).quotes@[i]).quote.status.holds_reservation()
                    && old(self).quotes@[i].quote.expires_at < now
                    ==> final(self).quotes@[i].quote.status == SwapStatus::Expired,
            forall|i: int|
                0 <= i < old(self).quotes@.len()
                    && !((#[trigger] old(self).quotes@[i]).quote.status.holds_reservation()
                        && old(self).quotes@[i].quote.expires_at < now)
                    ==> final(self).quotes@[i] == old(self).quotes@[i],
            forall|i: int|
                0 <= i < final(self).quotes@.len()
                    ==> !((#[trigger] final(self).quotes@[i]).quote.status.holds_reservation()
                        && final(self).quotes@[i].quote.expires_at < now),
            count as int == due_count(old(self).quotes@, now),
    {
        let ghost orig = *self;
        let n = self.quotes.len();
        let mut count: usize = 0;
        let mut k: usize = 0;
        while k < n
            invariant
                n == self.quotes@.len(),
                k <= n,
                self.wf(),
                ledger.wf(),
                self.consistent_with(*ledger),
                self.mints_in_ledger(*ledger),
                self.config == orig.config,
                old(ledger).same_mints(*ledger),
                self.executions@ == orig.executions@,
                self.quotes@.len() == orig.quotes@.len(),
                forall|i: int| k <= i < n ==> #[trigger] self.quotes@[i] == orig.quotes@[i],
                forall|i: int|
                    0 <= i < k && (#[trigger] orig.quotes@[i]).quote.status.holds_reservation()
                        && orig.quotes@[i].quote.expires_at < now
                        ==> self.quotes@[i].quote.status == SwapStatus::Expired
                            && self.quotes@[i].quote.quote_id@ == orig.quotes@[i].quote.quote_id@
                            && self.quotes@[i].quote.to_mint@ == orig.quotes@[i].quote.to_mint@
                            && self.quotes@[i].quote.from_mint@
                                == orig.quotes@[i].quote.from_mint@
                            && self.quotes@[i].quote.input_amount
                                == orig.quotes@[i].quote.input_amount
                            && self.quotes@[i].quote.output_amount
                                == orig.quotes@[i].quote.output_amount
                            && self.quotes@[i].quote.fee == orig.quotes@[i].quote.fee
                            && self.quotes@[i].quote.expires_at
                                == orig.quotes@[i].quote.expires_at,
                forall|i: int|
                    0 <= i < k
                        && !((#[trigger] orig.quotes@[i]).quote.status.holds_reservation()
                            && orig.quotes@[i].quote.expires_at < now)
                        ==> self.quotes@[i] == orig.quotes@[i],
                count as int == due_count(orig.quotes@.take(k as int), now),
                count <= k,
            decreases n - k,
        {
            proof {
                assert(orig.quotes@.take(k as int + 1).drop_last()
                    =~= orig.quotes@.take(k as int));
                assert(orig.quotes@.take(k as int + 1).last() == orig.quotes@[k as int]);
            }
            let due = matches!(self.quotes[k].quote.status, SwapStatus::Pending
                | SwapStatus::Accepted) && self.quotes[k].quote.expires_at < now;
            if due {
                let to_mint = self.quotes[k].quote.to_mint.clone();
                let out = self.quotes[k].quote.output_amount;
                let qid = self.quotes[k].quote.quote_id.clone();
                let ghost pre = *self;
                let ghost ledger_pre = *ledger;
                proof {
                    lemma_quotes_reserved_ge_contrib(self.quotes@, k as int, to_mint@);
                }
                let rel = ledger.release(&to_mint, out, &qid, now);
                assert(rel is Ok);
                self.quotes[k].quote.status = SwapStatus::Expired;
                proof {
                    assert forall|m: Seq<char>|
                        #[trigger] ledger.reserved_of(m) == ledger_pre.reserved_of(m)
                            + quote_contrib(self.quotes@[k as int], m)
                            - quote_contrib(pre.quotes@[k as int], m) by {
                        assert(quote_contrib(self.quotes@[k as int], m) == 0);
                        if m != to_mint@ {
                            assert(quote_contrib(pre.quotes@[k as int], m) == 0);
                            assert(ledger.available_of(m) == ledger_pre.available_of(m));
                        }
                    }
                    self.lemma_status_only_update(pre, k as int, ledger_pre, *ledger);
                }
                count += 1;
            }
            k += 1;
        }
        proof {
            assert(orig.quotes@.take(n as int) =~= orig.quotes@);
            assert forall|i: int|
                0 <= i < self.quotes@.len()
                    implies !((#[trigger] self.quotes@[i]).quote.status.holds_reservation()
                        && self.quotes@[i].quote.expires_at < now) by {
                if orig.quotes@[i].quote.status.holds_reservation()
                    && orig.quotes@[i].quote.expires_at < now {
                    assert(self.quotes@[i].quote.status == SwapStatus::Expired);
                } else {
                    assert(self.quotes@[i] == orig.quotes@[i]);
                }
            }
        }
        count
    }

    /// The quote at index `i` may have mint-side tokens to reclaim: it
    /// ended `Expired` or `Failed` after tokens were minted for it (an
    /// execution record was opened and never completed).
    pub open spec fn needs_reclaim(self, i: int) -> bool {
        let q = self.quotes@[i].quote;
        &&& (q.status == SwapStatus::Expired || q.status == SwapStatus::Failed)
        &&& exists|e: int|
            0 <= e < self.executions@.len()
                && (#[trigger] self.executions@[e]).quote_id@ == q.quote_id@
                && !self.executions@[e].broker_swap_complete
    }

    /// Whether an execution record for this quote was opened and never
    /// completed.
    fn has_open_execution(&self, quote_id: &String) -> (r: bool)
        ensures
            r == exists|e: int|
                0 <= e < self.executions@.len()
                    && (#[trigger] self.executions@[e]).quote_id@ == quote_id@
                    && !self.executions@[e].broker_swap_complete,
    {
        let n = self.executions.len();
        let mut k: usize = 0;
        while k < n
            invariant
                n == self.executions@.len(),
                k <= n,
                forall|j: int|
                    0 <= j < k ==> !((#[trigger] self.executions@[j]).quote_id@ == quote_id@
                        && !self.executions@[j].broker_swap_complete),
            decreases n - k,
        {
            if self.executions[k].quote_id == *quote_id && !self.executions[k].broker_swap_complete
            {
                return true;
            }
            k += 1;
        }
        false
    }

    /// The action correctly describes some quote needing reclamation.
    pub open spec fn reclaim_entry_ok(self, a: ReclaimAction) -> bool {
        exists|i: int|
            0 <= i < self.quotes@.len() && #[trigger] self.needs_reclaim(i)
                && a.quote_id@ == self.quotes@[i].quote.quote_id@
                && a.mint_url@ == self.quotes@[i].quote.to_mint@
                && a.amount == self.quotes@[i].quote.output_amount
    }

    /// List the quotes whose mint-side tokens need reclaiming — the
    /// operator-intervention path for quotes reaped or failed after
    /// acceptance: exactly the quotes that ended `Expired` or `Failed`
    /// with an open execution record, each with its target mint and output
    /// amount.
    pub fn reclaim_candidates(&self) -> (r: Vec<ReclaimAction>)
        requires
            self.wf(),
        ensures
            forall|k: int| 0 <= k < r@.len() ==> self.reclaim_entry_ok(#[trigger] r@[k]),
            forall|i: int|
                0 <= i < self.quotes@.len() && #[trigger] self.needs_reclaim(i)
                    ==> exists|k: int|
                        0 <= k < r@.len() && (#[trigger] r@[k]).quote_id@
                            == self.quotes@[i].quote.quote_id@,
    {
        let n = self.quotes.len();
        let mut r: Vec<ReclaimAction> = Vec::new();
        let mut k: usize = 0;
        while k < n
            invariant
                n == self.quotes@.len(),
                k <= n,
                forall|j: int| 0 <= j < r@.len() ==> self.reclaim_entry_ok(#[trigger] r@[j]),
                forall|i: int|
                    0 <= i < k && #[trigger] self.needs_reclaim(i) ==> exists|j: int|
                        0 <= j < r@.len() && (#[trigger] r@[j]).quote_id@
                            == self.quotes@[i].quote.quote_id@,
            decreases n - k,
        {
            let terminal_unfinished = matches!(self.quotes[k].quote.status, SwapStatus::Expired
                | SwapStatus::Failed);
            if terminal_unfinished && self.has_open_execution(&self.quotes[k].quote.quote_id) {
                let ghost pre = r@;
                r.push(ReclaimAction {
                    quote_id: self.quotes[k].quote.quote_id.clone(),
                    mint_url: self.quotes[k].quote.to_mint.clone(),
                    amount: self.quotes[k].quote.output_amount,
                });
                proof {
                    assert(self.needs_reclaim(k as int));
                    assert forall|j: int|
                        0 <= j < r@.len() implies self.reclaim_entry_ok(#[trigger] r@[j]) by {
                        if j < pre.len() {
                            assert(r@[j] == pre[j]);
                            assert(self.reclaim_entry_ok(pre[j]));
                        } else {
                            assert(r@[j] == r@.last());
                            assert(r@.last().quote_id@ == self.quotes@[k as int].quote.quote_id@
                                && r@.last().mint_url@ == self.quotes@[k as int].quote.to_mint@
                                && r@.last().amount
                                    == self.quotes@[k as int].quote.output_amount);
                        }
                    }
                    assert forall|i: int|
                        0 <= i < k + 1 && #[trigger] self.needs_reclaim(i)
                            implies exists|j: int|
                                0 <= j < r@.len() && (#[trigger] r@[j]).quote_id@
                                    == self.quotes@[i].quote.quote_id@ by {
                        if i < k {
                            let j = choose|j: int|
                                0 <= j < pre.len() && (#[trigger] pre[j]).quote_id@
                                    == self.quotes@[i].quote.quote_id@;
                            assert(r@[j] == pre[j]);
                        } else {
                            assert(r@.last().quote_id@
                                == self.quotes@[k as int].quote.quote_id@);
                        }
                    }
                }
            } else {
                proof {
                    assert(!self.needs_reclaim(k as int));
                }
            }
            k += 1;
        }
        r
    }

    /// Look up a quote by id and return a copy of its public data.
    pub fn get_quote(&self, quote_id: &String) -> (r: Option<SwapQuote>)
        requires
            self.wf(),
        ensures
            r is Some <==> self.has_quote(quote_id@),
            r matches Some(q) ==> quote_views_match(q,
                self.quotes@[self.qidx(quote_id@)].quote),
    {
        match self.find_quote(quote_id) {
            None => None,
            Some(i) => {
                let ghost w = self.qidx(quote_id@);
                assert(self.quotes@[w].quote.quote_id@ == quote_id@);
                assert(i as int == w);
                Some(copy_quote(&self.quotes[i].quote))
            },
        }
    }

    /// Pricing is fixed at creation and never revised: every quote held by
    /// a well-formed coordinator — a completed one included — carries the
    /// fee computed from the broker's configured rate, rounded up, and its
    /// output amount is exactly its input amount minus that fee.
    pub proof fn lemma_quote_pricing(self, i: int)
        requires
            self.wf(),
            0 <= i < self.quotes@.len(),
        ensures
            self.quotes@[i].quote.fee == fee::spec_fee(self.quotes@[i].quote.input_amount,
                self.config.fee_rate_ppm),
            self.quotes@[i].quote.output_amount == self.quotes@[i].quote.input_amount
                - self.quotes@[i].quote.fee,
            self.quotes@[i].quote.fee_rate_ppm == self.config.fee_rate_ppm,
    {
    }

    /// The ledger coupling in words: on every mint, the reserved balance is
    /// exactly the sum of the output amounts of the non-terminal quotes
    /// targeting it, and neither balance is ever negative.
    pub proof fn lemma_reserved_matches_quotes(
        self,
        ledger: LiquidityManager,
        m: Seq<char>,
    )
        requires
            self.consistent_with(ledger),
        ensures
            ledger.reserved_of(m) == quotes_reserved(self.quotes@, m),
            ledger.reserved_of(m) >= 0,
            ledger.available_of(m) >= 0,
    {
        lemma_quotes_reserved_nonneg(self.quotes@, m);
    }

    /// After one quote's status changed (and nothing else), well-formedness
    /// holds again, and the reserved totals moved exactly by the difference
    /// of that quote's contribution; combined with what the ledger operation
    /// of the caller ensures, the coupling invariant is re-established.
    proof fn lemma_status_only_update(
        self,
        pre: SwapCoordinator,
        i: int,
        ledger_pre: LiquidityManager,
        ledger_post: LiquidityManager,
    )
        requires
            pre.wf(),
            0 <= i < pre.quotes@.len(),
            self.config == pre.config,
            self.quotes@.len() == pre.quotes@.len(),
            self.quotes@ == pre.quotes@.update(i, self.quotes@[i]),
            self.quotes@[i].quote == (SwapQuote {
                status: self.quotes@[i].quote.status,
                ..pre.quotes@[i].quote
            }),
            self.quotes@[i].broker_swap_key == pre.quotes@[i].broker_swap_key,
            self.quotes@[i].adaptor_secret == pre.quotes@[i].adaptor_secret,
            pre.consistent_with(ledger_pre),
            forall|m: Seq<char>|
                #[trigger] ledger_post.reserved_of(m) == ledger_pre.reserved_of(m)
                    + quote_contrib(self.quotes@[i], m) - quote_contrib(pre.quotes@[i], m),
        ensures
            self.wf(),
            self.consistent_with(ledger_post),
    {
        assert forall|k: int|
            0 <= k < self.quotes@.len() implies self.quote_wf(#[trigger] self.quotes@[k]) by {
            if k != i {
                assert(self.quotes@[k] == pre.quotes@[k]);
                assert(pre.quote_wf(pre.quotes@[k]));
            } else {
                assert(pre.quote_wf(pre.quotes@[i]));
            }
        }
        assert forall|m: Seq<char>|
            #[trigger] ledger_post.reserved_of(m) == quotes_reserved(self.quotes@, m) by {
            lemma_quotes_reserved_update(pre.quotes@, i, self.quotes@[i], m);
            assert(ledger_pre.reserved_of(m) == quotes_reserved(pre.quotes@, m));
        }
    }
}

/// Whether two byte vectors hold the same bytes.
fn bytes_eq(a: &Vec<u8>, b: &Vec<u8>) -> (r: bool)
    ensures
        r == (a@ == b@),
{
    let n = a.len();
    if n != b.len() {
        return false;
    }
    let mut i: usize = 0;
    while i < n
        invariant
            n == a@.len(),
            n == b@.len(),
            i <= n,
            forall|j: int| 0 <= j < i ==> a@[j] == b@[j],
        decreases n - i,
    {
        if a[i] != b[i] {
            return false;
        }
        i += 1;
    }
    proof {
        assert(a@ =~= b@);
    }
    true
}

/// Resolve which client key binds a quote acceptance: a key stored at
/// request time and one provided now must match; with only one side
/// present, that one is used; with neither, the acceptance is rejected.
pub fn resolve_client_key(stored: Option<Vec<u8>>, provided: Option<Vec<u8>>) -> (r: Result<
    Vec<u8>, BrokerError>)
    ensures
        (match (stored, provided) {
            (Option::None, Option::None) => r matches Err(BrokerError::InvalidSwapRequest(_)),
            (Option::None, Option::Some(p)) => r matches Ok(k) && k@ == p@,
            (Option::Some(s), Option::None) => r matches Ok(k) && k@ == s@,
            (Option::Some(s), Option::Some(p)) => if s@ == p@ {
                r matches Ok(k) && k@ == s@
            } else {
                r matches Err(BrokerError::InvalidSwapRequest(_))
            },
        }),
{
    match (stored, provided) {
        (None, None) => Err(BrokerError::InvalidSwapRequest(
            "no client key was provided".to_owned())),
        (None, Some(p)) => Ok(p),
        (Some(s), None) => Ok(s),
        (Some(s), Some(p)) => {
            if bytes_eq(&s, &p) {
                Ok(s)
            } else {
                Err(BrokerError::InvalidSwapRequest(
                    "client key does not match the quoted key".to_owned()))
            }
        },
    }
}

/// Base delay of the retry schedule for transient mint failures: 200 ms,
/// doubling with each attempt, for at most five attempts.
pub open spec fn spec_backoff_base(attempt: u64) -> int {
    if attempt == 0 {
        200
    } else if attempt == 1 {
        400
    } else if attempt == 2 {
        800
    } else if attempt == 3 {
        1600
    } else {
        3200
    }
}

/// The retry policy for a transient mint failure during completion: up to
/// five attempts, an exponential delay starting at 200 ms and doubling,
/// capped by the time left to the quote's expiry. `None` means give up and
/// fail the quote. (The caller adds random jitter to the returned delay.)
pub fn retry_backoff_ms(attempt: u64, remaining_ttl_ms: u64) -> (r: Option<u64>)
    ensures
        attempt >= 5 || remaining_ttl_ms == 0 ==> r is None,
        attempt < 5 && remaining_ttl_ms > 0 ==> (r matches Some(d)
            && d == if spec_backoff_base(attempt) <= remaining_ttl_ms {
                spec_backoff_base(attempt)
            } else {
                remaining_ttl_ms as int
            }),
{
    if attempt >= 5 || remaining_ttl_ms == 0 {
        return None;
    }
    let base: u64 = match attempt {
        0 => 200,
        1 => 400,
        2 => 800,
        3 => 1600,
        _ => 3200,
    };
    if base <= remaining_ttl_ms {
        Some(base)
    } else {
        Some(remaining_ttl_ms)
    }
}

/// Two quote values carry the same data, field by field.
pub open spec fn quote_views_match(a: SwapQuote, b: SwapQuote) -> bool {
    &&& a.quote_id@ == b.quote_id@
    &&& a.from_mint@ == b.from_mint@
    &&& a.to_mint@ == b.to_mint@
    &&& a.input_amount == b.input_amount
    &&& a.output_amount == b.output_amount
    &&& a.fee == b.fee
    &&& a.fee_rate_ppm == b.fee_rate_ppm
    &&& a.broker_public_key@ == b.broker_public_key@
    &&& a.adaptor_point@ == b.adaptor_point@
    &&& adaptor::opt_view(a.tweaked_pubkey) == adaptor::opt_view(b.tweaked_pubkey)
    &&& a.expires_in == b.expires_in
    &&& a.expires_at == b.expires_at
    &&& a.status == b.status
}

/// Copy a quote value.
fn copy_quote(q: &SwapQuote) -> (r: SwapQuote)
    ensures
        quote_views_match(r, *q),
{
    SwapQuote {
        quote_id: q.quote_id.clone(),
        from_mint: q.from_mint.clone(),
        to_mint: q.to_mint.clone(),
        input_amount: q.input_amount,
        output_amount: q.output_amount,
        fee: q.fee,
        fee_rate_ppm: q.fee_rate_ppm,
        broker_public_key: copy_bytes(&q.broker_public_key),
        adaptor_point: copy_bytes(&q.adaptor_point),
        tweaked_pubkey: match &q.tweaked_pubkey {
            Some(t) => Some(copy_bytes(t)),
            None => None,
        },
        expires_in: q.expires_in,
        expires_at: q.expires_at,
        status: q.status,
    }
}

/// Sum a list of proof amounts without overflow.
fn sum_proof_amounts(amounts: &Vec<u64>) -> (r: u128)
    ensures
        r == sum_amounts(amounts@),
{
    let n = amounts.len();
    let mut total: u128 = 0;
    let mut i: usize = 0;
    while i < n
        invariant
            n == amounts@.len(),
            i <= n,
            total == sum_amounts(amounts@.take(i as int)),
            total <= i * (u64::MAX as int),
        decreases n - i,
    {
        proof {
            assert(amounts@.take(i as int + 1).drop_last() =~= amounts@.take(i as int));
            assert(amounts@.take(i as int + 1).last() == amounts@[i as int]);
            assert((i + 1) * (u64::MAX as int) == i * (u64::MAX as int) + u64::MAX)
                by (nonlinear_arith);
        }
        total = total + (amounts[i] as u128);
        i += 1;
    }
    proof {
        assert(amounts@.take(n as int) =~= amounts@);
    }
    total
}

/// Copy a byte vector.
fn copy_bytes(v: &Vec<u8>) -> (r: Vec<u8>)
    ensures
        r@ == v@,
{
    let mut r: Vec<u8> = Vec::new();
    let n = v.len();
    let mut i: usize = 0;
    while i < n
        invariant
            n == v@.len(),
            i <= n,
            r@ == v@.subrange(0, i as int),
        decreases n - i,
    {
        r.push(v[i]);
        assert(r@ =~= v@.subrange(0, i + 1));
        i += 1;
    }
    assert(r@ =~= v@);
    r
}

} // verus!
