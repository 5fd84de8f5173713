//! Liquidity status as the broker reports it.

use vstd::prelude::*;
use crate::ledger::LiquidityManager;
use crate::types::BrokerConfig;

verus! {

/// Balance on a specific mint.
pub struct MintBalance {
    pub mint_url: String,
    pub name: String,
    pub balance: u64,
}

/// Liquidity status summary across all configured mints.
pub struct LiquidityStatus {
    pub mints: Vec<MintBalance>,
    pub total_balance: u64,
}

/// Summed available balances of the configured mints, in configuration
/// order.
pub open spec fn avail_total(
    mints: Seq<crate::types::MintConfig>,
    ledger: LiquidityManager,
) -> int
    decreases mints.len(),
{
    if mints.len() == 0 {
        0
    } else {
        avail_total(mints.drop_last(), ledger) + ledger.available_of(mints.last().mint_url@)
    }
}

/// The broker's liquidity status: one entry per configured mint with its
/// available balance, and the total across mints (saturated at the `u64`
/// range).
pub fn get_liquidity_status(config: &BrokerConfig, ledger: &LiquidityManager) -> (r:
    LiquidityStatus)
    requires
        ledger.wf(),
    ensures
        r.mints@.len() == config.mints@.len(),
        forall|i: int|
            0 <= i < config.mints@.len() ==> {
                &&& (#[trigger] r.mints@[i]).mint_url@ == config.mints@[i].mint_url@
                &&& r.mints@[i].name@ == config.mints@[i].name@
                &&& r.mints@[i].balance
                    == ledger.available_of(config.mints@[i].mint_url@)
            },
        r.total_balance == if avail_total(config.mints@, *ledger) > u64::MAX {
            u64::MAX as int
        } else {
            avail_total(config.mints@, *ledger)
        },
{
    let n = config.mints.len();
    let mut mints: Vec<MintBalance> = Vec::new();
    let mut total: u128 = 0;
    let mut k: usize = 0;
    while k < n
        invariant
            n == config.mints@.len(),
            k <= n,
            ledger.wf(),
            mints@.len() == k,
            forall|i: int|
                0 <= i < k ==> {
                    &&& (#[trigger] mints@[i]).mint_url@ == config.mints@[i].mint_url@
                    &&& mints@[i].name@ == config.mints@[i].name@
                    &&& mints@[i].balance
                        == ledger.available_of(config.mints@[i].mint_url@)
                },
            total == avail_total(config.mints@.take(k as int), *ledger),
            total <= k * (u64::MAX as int),
        decreases n - k,
    {
        proof {
            assert(config.mints@.take(k as int + 1).drop_last()
                =~= config.mints@.take(k as int));
            assert(config.mints@.take(k as int + 1).last() == config.mints@[k as int]);
            assert((k + 1) * (u64::MAX as int) == k * (u64::MAX as int) + u64::MAX)
                by (nonlinear_arith);
        }
        let balance = ledger.get_balance(&config.mints[k].mint_url);
        mints.push(MintBalance {
            mint_url: config.mints[k].mint_url.clone(),
            name: config.mints[k].name.clone(),
            balance,
        });
        total = total + (balance as u128);
        k += 1;
    }
    proof {
        assert(config.mints@.take(n as int) =~= config.mints@);
    }
    let total_balance: u64 = if total > (u64::MAX as u128) {
        u64::MAX
    } else {
        total as u64
    };
    LiquidityStatus { mints, total_balance }
}

} // verus!
