//! Exact fee arithmetic.
//!
//! The fee of a swap is the input amount times the fee rate, rounded up;
//! the output amount is what remains of the input after the fee.

use vstd::prelude::*;

verus! {

/// Parts per million in a rate of one.
pub const PPM_DENOM: u64 = 1_000_000;

/// The broker's fee on `amount` at `fee_rate_ppm` parts per million:
/// `ceil(amount * fee_rate_ppm / 1_000_000)`.
pub open spec fn spec_fee(amount: u64, fee_rate_ppm: u64) -> int {
    (amount * fee_rate_ppm + (PPM_DENOM - 1)) / (PPM_DENOM as int)
}

/// The output amount of a swap: input minus the fee.
pub open spec fn spec_output(amount: u64, fee_rate_ppm: u64) -> int {
    amount - spec_fee(amount, fee_rate_ppm)
}

/// With a fee rate below one, the fee never exceeds the amount.
pub proof fn lemma_fee_le_amount(amount: u64, fee_rate_ppm: u64)
    requires
        fee_rate_ppm < PPM_DENOM,
    ensures
        0 <= spec_fee(amount, fee_rate_ppm) <= amount,
{
    let d = PPM_DENOM as int;
    let p = amount * fee_rate_ppm + (d - 1);
    assert(amount * fee_rate_ppm >= 0) by (nonlinear_arith)
        requires true;
    assert(p <= amount * d + d - 1) by (nonlinear_arith)
        requires
            p == amount * fee_rate_ppm + (d - 1),
            fee_rate_ppm <= d - 1,
    ;
    assert(p / d >= 0) by (nonlinear_arith)
        requires p >= 0, d > 0;
    assert(p / d <= amount) by (nonlinear_arith)
        requires p <= amount * d + d - 1, d > 0, p >= 0;
}

/// The fee is zero exactly when the rate is zero or the amount is zero.
pub proof fn lemma_fee_zero(amount: u64, fee_rate_ppm: u64)
    requires
        fee_rate_ppm < PPM_DENOM,
    ensures
        (spec_fee(amount, fee_rate_ppm) == 0) <==> (amount == 0 || fee_rate_ppm == 0),
{
    let d = PPM_DENOM as int;
    if amount == 0 || fee_rate_ppm == 0 {
        assert(amount * fee_rate_ppm == 0) by (nonlinear_arith)
            requires amount == 0 || fee_rate_ppm == 0;
        assert((d - 1) / d == 0) by (nonlinear_arith)
            requires d == 1_000_000;
    } else {
        assert(amount * fee_rate_ppm >= 1) by (nonlinear_arith)
            requires amount >= 1, fee_rate_ppm >= 1;
        assert((amount * fee_rate_ppm + (d - 1)) / d >= 1) by (nonlinear_arith)
            requires amount * fee_rate_ppm + (d - 1) >= d, d > 0;
    }
}

/// Compute the fee exactly: `ceil(amount * fee_rate_ppm / 1_000_000)`.
pub fn compute_fee(amount: u64, fee_rate_ppm: u64) -> (r: u64)
    requires
        fee_rate_ppm < PPM_DENOM,
    ensures
        r == spec_fee(amount, fee_rate_ppm),
        r <= amount,
{
    proof {
        lemma_fee_le_amount(amount, fee_rate_ppm);
    }
    let prod: u128 = (amount as u128) * (fee_rate_ppm as u128);
    let f: u128 = (prod + ((PPM_DENOM - 1) as u128)) / (PPM_DENOM as u128);
    assert(f == spec_fee(amount, fee_rate_ppm));
    f as u64
}

/// Compute the output amount: input minus the fee.
pub fn compute_output(amount: u64, fee_rate_ppm: u64) -> (r: u64)
    requires
        fee_rate_ppm < PPM_DENOM,
    ensures
        r == spec_output(amount, fee_rate_ppm),
        r + spec_fee(amount, fee_rate_ppm) == amount,
{
    let f = compute_fee(amount, fee_rate_ppm);
    amount - f
}

} // verus!
