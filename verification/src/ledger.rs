//! Per-mint liquidity ledger with two-phase reservation.
//!
//! Each supported mint has one entry holding an `available` and a `reserved`
//! balance. A swap first *reserves* its output amount on the target mint;
//! the reservation is later either *released* (quote expired or failed) or
//! *committed* (swap completed, which also credits the source mint with the
//! input amount). Every balance change appends one audit event.

use vstd::prelude::*;
use vstd::arithmetic::div_mod::{
    lemma_fundamental_div_mod, lemma_fundamental_div_mod_converse, lemma_mod_pos_bound,
};
use crate::errors::BrokerError;
use crate::types::MintConfig;

verus! {

/// Sum of a list of proof amounts.
pub open spec fn sum_amounts(s: Seq<u64>) -> int
    decreases s.len(),
{
    if s.len() == 0 {
        0
    } else {
        sum_amounts(s.drop_last()) + s.last()
    }
}

/// The sum of a list of amounts is never negative.
pub proof fn lemma_sum_amounts_nonneg(s: Seq<u64>)
    ensures
        sum_amounts(s) >= 0,
    decreases s.len(),
{
    if s.len() > 0 {
        lemma_sum_amounts_nonneg(s.drop_last());
    }
}

/// Removing one element subtracts exactly its value from the sum.
proof fn lemma_sum_amounts_remove(s: Seq<u64>, i: int)
    requires
        0 <= i < s.len(),
    ensures
        sum_amounts(s.remove(i)) == sum_amounts(s) - s[i],
    decreases s.len(),
{
    if i == s.len() - 1 {
        assert(s.remove(i) =~= s.drop_last());
    } else {
        assert(s.remove(i).drop_last() =~= s.drop_last().remove(i));
        assert(s.remove(i).last() == s.last());
        lemma_sum_amounts_remove(s.drop_last(), i);
    }
}

/// Kind of a liquidity audit event.
#[derive(Debug, Clone, Copy, PartialEq, Eq, Structural)]
pub enum EventKind {
    Deposit,
    Reserve,
    Release,
    SwapIn,
    SwapOut,
}

/// One entry of the append-only liquidity audit log.
pub struct LiquidityEventRec {
    pub mint_url: String,
    pub kind: EventKind,
    pub amount: u64,
    /// The mint's `available` balance after the event.
    pub balance_after: u64,
    pub quote_id: Option<String>,
    pub timestamp: u64,
}

/// Liquidity state of a single mint.
pub struct MintLiquidity {
    pub mint_url: String,
    /// Balance free to be reserved by new quotes.
    pub available: u64,
    /// Balance held by reservations of non-terminal quotes.
    pub reserved: u64,
    pub last_updated: u64,
}

/// The broker's liquidity across all supported mints.
pub struct LiquidityManager {
    pub entries: Vec<MintLiquidity>,
    pub events: Vec<LiquidityEventRec>,
}

impl LiquidityManager {
    /// Well-formed: one entry per mint URL, and each entry's two balances
    /// together fit a `u64`.
    pub open spec fn wf(self) -> bool {
        &&& forall|i: int, j: int|
            0 <= i < j < self.entries@.len()
                ==> self.entries@[i].mint_url@ != self.entries@[j].mint_url@
        &&& forall|i: int|
            0 <= i < self.entries@.len()
                ==> #[trigger] self.entries@[i].available + self.entries@[i].reserved <= u64::MAX
    }

    /// The ledger has an entry for this mint URL.
    pub open spec fn has_mint(self, m: Seq<char>) -> bool {
        exists|i: int| 0 <= i < self.entries@.len() && self.entries@[i].mint_url@ == m
    }

    /// Index of the entry for mint URL `m` (meaningful only when `has_mint`).
    pub open spec fn idx_of(self, m: Seq<char>) -> int {
        choose|i: int| 0 <= i < self.entries@.len() && self.entries@[i].mint_url@ == m
    }

    /// Available balance on mint `m`; zero for a mint the ledger does not hold.
    pub open spec fn available_of(self, m: Seq<char>) -> int {
        if self.has_mint(m) {
            self.entries@[self.idx_of(m)].available as int
        } else {
            0
        }
    }

    /// Reserved balance on mint `m`; zero for a mint the ledger does not hold.
    pub open spec fn reserved_of(self, m: Seq<char>) -> int {
        if self.has_mint(m) {
            self.entries@[self.idx_of(m)].reserved as int
        } else {
            0
        }
    }

    /// The mint set of the ledger is unchanged between two states.
    pub open spec fn same_mints(self, other: LiquidityManager) -> bool {
        forall|m: Seq<char>| #[trigger] other.has_mint(m) == self.has_mint(m)
    }

    /// Outcome of `n` consecutive `reserve` calls for the same amount `a` on
    /// a mint whose available balance starts at `v`, as `reserve`'s contract
    /// determines it: a call succeeds exactly when the balance still covers
    /// `a`, success lowers the balance by exactly `a`, and failure changes
    /// nothing.
    pub open spec fn spec_reserve_successes(v: nat, a: nat, n: nat) -> nat
        decreases n,
    {
        if n == 0 {
            0
        } else if v >= a {
            (1 + Self::spec_reserve_successes((v - a) as nat, a, (n - 1) as nat)) as nat
        } else {
            Self::spec_reserve_successes(v, a, (n - 1) as nat)
        }
    }

    /// Contending reservations saturate the pool exactly: of `n` reservation
    /// requests for the same amount `a` against an available balance `v`,
    /// exactly `min(n, v / a)` succeed — never more, never fewer — and all
    /// others fail with `InsufficientLiquidity`.
    pub proof fn lemma_reserve_saturation(v: nat, a: nat, n: nat)
        requires
            a >= 1,
        ensures
            Self::spec_reserve_successes(v, a, n) == if n <= v as int / a as int {
                n as int
            } else {
                v as int / a as int
            },
        decreases n,
    {
        let vi = v as int;
        let ai = a as int;
        lemma_fundamental_div_mod(vi, ai);
        lemma_mod_pos_bound(vi, ai);
        if n == 0 {
            assert(vi / ai >= 0) by (nonlinear_arith)
                requires vi >= 0, ai >= 1, vi == ai * (vi / ai) + vi % ai, 0 <= vi % ai < ai;
        } else if v >= a {
            Self::lemma_reserve_saturation((v - a) as nat, a, (n - 1) as nat);
            assert(vi - ai == ai * (vi / ai - 1) + vi % ai) by (nonlinear_arith)
                requires vi == ai * (vi / ai) + vi % ai;
            lemma_fundamental_div_mod_converse(vi - ai, ai, vi / ai - 1, vi % ai);
            assert((vi - ai) / ai == vi / ai - 1);
        } else {
            Self::lemma_reserve_saturation(v, a, (n - 1) as nat);
            lemma_fundamental_div_mod_converse(vi, ai, 0, vi);
            assert(vi / ai == 0);
        }
    }

    /// Find the entry index for a mint URL.
    pub(crate) fn find_entry(&self, mint_url: &String) -> (r: Option<usize>)
        ensures
            match r {
                Some(i) => i < self.entries@.len()
                    && self.entries@[i as int].mint_url@ == mint_url@
                    && self.has_mint(mint_url@),
                None => !self.has_mint(mint_url@),
            },
    {
        let n = self.entries.len();
        let mut k: usize = 0;
        while k < n
            invariant
                n == self.entries@.len(),
                k <= n,
                forall|j: int| 0 <= j < k ==> self.entries@[j].mint_url@ != mint_url@,
            decreases n - k,
        {
            if self.entries[k].mint_url == *mint_url {
                return Some(k);
            }
            k += 1;
        }
        None
    }

    /// After replacing entry `i` by one with the same URL, every spec-level
    /// balance except that URL's is unchanged, and that URL's balances are
    /// those of the new entry.
    proof fn lemma_entry_updated(pre: LiquidityManager, post: LiquidityManager, i: int)
        requires
            pre.wf(),
            0 <= i < pre.entries@.len(),
            post.entries@ == pre.entries@.update(i, post.entries@[i]),
            post.entries@[i].mint_url@ == pre.entries@[i].mint_url@,
            post.entries@[i].available + post.entries@[i].reserved <= u64::MAX,
        ensures
            post.wf(),
            pre.same_mints(post),
            pre.has_mint(pre.entries@[i].mint_url@),
            post.available_of(pre.entries@[i].mint_url@) == post.entries@[i].available,
            post.reserved_of(pre.entries@[i].mint_url@) == post.entries@[i].reserved,
            forall|m: Seq<char>|
                m != pre.entries@[i].mint_url@
                    ==> #[trigger] post.available_of(m) == pre.available_of(m)
                        && post.reserved_of(m) == pre.reserved_of(m),
    {
        let u = pre.entries@[i].mint_url@;
        assert(forall|k: int|
            0 <= k < pre.entries@.len()
                ==> #[trigger] post.entries@[k].mint_url@ == pre.entries@[k].mint_url@);
        assert forall|m: Seq<char>| #[trigger] post.has_mint(m) == pre.has_mint(m) by {
            if pre.has_mint(m) {
                let w = pre.idx_of(m);
                assert(post.entries@[w].mint_url@ == m);
            }
            if post.has_mint(m) {
                let w = post.idx_of(m);
                assert(pre.entries@[w].mint_url@ == m);
            }
        }
        assert(post.has_mint(u));
        let w = post.idx_of(u);
        assert(pre.entries@[w].mint_url@ == u);
        assert(w == i);
        assert forall|m: Seq<char>|
            m != u implies #[trigger] post.available_of(m) == pre.available_of(m)
                && post.reserved_of(m) == pre.reserved_of(m) by {
            if pre.has_mint(m) {
                assert(post.has_mint(m));
                let a = pre.idx_of(m);
                let b = post.idx_of(m);
                assert(0 <= a < pre.entries@.len() && pre.entries@[a].mint_url@ == m);
                assert(0 <= b < post.entries@.len() && post.entries@[b].mint_url@ == m);
                assert(pre.entries@[b].mint_url@ == m);
                assert(a == b);
                assert(a != i);
            }
        }
    }

    /// A fresh ledger for the configured mints: every balance zero, no events.
    /// A mint URL listed twice gets a single entry.
    pub fn new(mints: &Vec<MintConfig>) -> (r: LiquidityManager)
        ensures
            r.wf(),
            r.events@.len() == 0,
            forall|m: Seq<char>|
                #[trigger] r.has_mint(m) <==> exists|i: int|
                    0 <= i < mints@.len() && mints@[i].mint_url@ == m,
            forall|m: Seq<char>|
                #[trigger] r.available_of(m) == 0 && r.reserved_of(m) == 0,
    {
        let mut r = LiquidityManager { entries: Vec::new(), events: Vec::new() };
        let n = mints.len();
        let mut k: usize = 0;
        while k < n
            invariant
                n == mints@.len(),
                k <= n,
                r.wf(),
                r.events@.len() == 0,
                forall|i: int|
                    0 <= i < r.entries@.len()
                        ==> (#[trigger] r.entries@[i]).available == 0
                            && r.entries@[i].reserved == 0,
                forall|m: Seq<char>|
                    #[trigger] r.has_mint(m) <==> exists|i: int|
                        0 <= i < k && mints@[i].mint_url@ == m,
            decreases n - k,
        {
            let ghost pre = r;
            let present = r.find_entry(&mints[k].mint_url);
            if present.is_none() {
                let entry = MintLiquidity {
                    mint_url: mints[k].mint_url.clone(),
                    available: 0,
                    reserved: 0,
                    last_updated: 0,
                };
                r.entries.push(entry);
                proof {
                    let ghost last: int = pre.entries@.len() as int;
                    assert(r.entries@[last].mint_url@ == mints@[k as int].mint_url@);
                    assert forall|i: int, j: int|
                        0 <= i < j < r.entries@.len()
                            implies r.entries@[i].mint_url@ != r.entries@[j].mint_url@ by {
                        if j == last {
                            if r.entries@[i].mint_url@ == r.entries@[j].mint_url@ {
                                assert(pre.has_mint(mints@[k as int].mint_url@));
                            }
                        }
                    }
                    assert forall|m: Seq<char>|
                        #[trigger] r.has_mint(m) <==> exists|i: int|
                            0 <= i < k + 1 && mints@[i].mint_url@ == m by {
                        if r.has_mint(m) {
                            let w = choose|w: int|
                                0 <= w < r.entries@.len() && r.entries@[w].mint_url@ == m;
                            if w < last {
                                assert(pre.entries@[w].mint_url@ == m);
                                assert(pre.has_mint(m));
                                let i = choose|i: int| 0 <= i < k && mints@[i].mint_url@ == m;
                                assert(0 <= i < k + 1 && mints@[i].mint_url@ == m);
                            } else {
                                assert(mints@[k as int].mint_url@ == m);
                                assert(0 <= k < k + 1 && mints@[k as int].mint_url@ == m);
                            }
                        }
                        if exists|i: int| 0 <= i < k + 1 && mints@[i].mint_url@ == m {
                            let i = choose|i: int| 0 <= i < k + 1 && mints@[i].mint_url@ == m;
                            if i < k {
                                assert(pre.has_mint(m));
                                let w = pre.idx_of(m);
                                assert(pre.entries@[w].mint_url@ == m);
                                assert(r.entries@[w].mint_url@ == m);
                            } else {
                                assert(r.entries@[last].mint_url@ == m);
                            }
                        }
                    }
                }
            } else {
                proof {
                    assert(r.has_mint(mints@[k as int].mint_url@));
                    assert forall|m: Seq<char>|
                        #[trigger] r.has_mint(m) <==> exists|i: int|
                            0 <= i < k + 1 && mints@[i].mint_url@ == m by {
                        if r.has_mint(m) {
                            let i = choose|i: int| 0 <= i < k && mints@[i].mint_url@ == m;
                            assert(0 <= i < k + 1 && mints@[i].mint_url@ == m);
                        }
                        if exists|i: int| 0 <= i < k + 1 && mints@[i].mint_url@ == m {
                            let i = choose|i: int| 0 <= i < k + 1 && mints@[i].mint_url@ == m;
                            if i == k {
                                assert(r.has_mint(m));
                            } else {
                                assert(exists|i: int| 0 <= i < k && mints@[i].mint_url@ == m);
                            }
                        }
                    }
                }
            }
            k += 1;
        }
        r
    }

    /// Available balance on a mint; zero for an unknown mint.
    pub fn get_balance(&self, mint_url: &String) -> (r: u64)
        requires
            self.wf(),
        ensures
            r as int == self.available_of(mint_url@),
    {
        match self.find_entry(mint_url) {
            Some(i) => {
                let ghost w = self.idx_of(mint_url@);
                assert(self.entries@[w].mint_url@ == mint_url@);
                assert(i as int == w);
                self.entries[i].available
            },
            None => 0,
        }
    }

    /// Reserved balance on a mint; zero for an unknown mint.
    pub fn get_reserved(&self, mint_url: &String) -> (r: u64)
        requires
            self.wf(),
        ensures
            r as int == self.reserved_of(mint_url@),
    {
        match self.find_entry(mint_url) {
            Some(i) => {
                let ghost w = self.idx_of(mint_url@);
                assert(self.entries@[w].mint_url@ == mint_url@);
                assert(i as int == w);
                self.entries[i].reserved
            },
            None => 0,
        }
    }

    /// Whether the available balance on `mint_url` covers `amount`.
    pub fn can_swap(&self, mint_url: &String, amount: u64) -> (r: bool)
        requires
            self.wf(),
        ensures
            r == (self.available_of(mint_url@) >= amount),
    {
        self.get_balance(mint_url) >= amount
    }

    /// Credit `amount` to a mint's available balance (tokens received by the
    /// broker). Fails on an unknown mint, or when the mint's balances cannot
    /// hold the credit.
    pub fn deposit(&mut self, mint_url: &String, amount: u64, quote_id: Option<String>, now: u64)
        -> (r: Result<(), BrokerError>)
        requires
            old(self).wf(),
        ensures
            final(self).wf(),
            old(self).same_mints(*final(self)),
            r is Ok <==> old(self).has_mint(mint_url@)
                && old(self).available_of(mint_url@) + old(self).reserved_of(mint_url@) + amount
                    <= u64::MAX,
            r is Ok ==> {
                &&& final(self).available_of(mint_url@) == old(self).available_of(mint_url@)
                    + amount
                &&& final(self).reserved_of(mint_url@) == old(self).reserved_of(mint_url@)
                &&& forall|m: Seq<char>|
                    m != mint_url@ ==> #[trigger] final(self).available_of(m)
                        == old(self).available_of(m)
                        && final(self).reserved_of(m) == old(self).reserved_of(m)
                &&& final(self).events@ == old(self).events@.push(
                    (LiquidityEventRec {
                        mint_url: *mint_url,
                        kind: EventKind::Deposit,
                        amount,
                        balance_after: (old(self).available_of(mint_url@) + amount) as u64,
                        quote_id,
                        timestamp: now,
                    }),
                )
            },
            r is Err ==> *final(self) == *old(self),
            !old(self).has_mint(mint_url@) ==> (r matches Err(BrokerError::UnsupportedMint(u))
                && u@ == mint_url@),
            old(self).has_mint(mint_url@)
                && old(self).available_of(mint_url@) + old(self).reserved_of(mint_url@) + amount
                    > u64::MAX ==> r matches Err(BrokerError::InvalidSwapRequest(_)),
    {
        match self.find_entry(mint_url) {
            None => Err(BrokerError::UnsupportedMint(mint_url.clone())),
            Some(i) => {
                let ghost w = self.idx_of(mint_url@);
                assert(self.entries@[w].mint_url@ == mint_url@);
                assert(i as int == w);
                let avail = self.entries[i].available;
                let resv = self.entries[i].reserved;
                if amount > (u64::MAX - avail) - resv {
                    Err(BrokerError::InvalidSwapRequest("deposit overflows balance".to_owned()))
                } else {
                    let ghost pre = *self;
                    self.entries[i].available = avail + amount;
                    self.entries[i].last_updated = now;
                    let ev = LiquidityEventRec {
                        mint_url: mint_url.clone(),
                        kind: EventKind::Deposit,
                        amount,
                        balance_after: avail + amount,
                        quote_id,
                        timestamp: now,
                    };
                    self.events.push(ev);
                    proof {
                        assert(self.entries@ =~= pre.entries@.update(
                            i as int, self.entries@[i as int]));
                        Self::lemma_entry_updated(pre, *self, i as int);
                    }
                    Ok(())
                }
            },
        }
    }

    /// Atomically move `amount` from `available` to `reserved` on a mint.
    /// This is the single decision point a quote's output amount is held at:
    /// it succeeds exactly when the available balance covers the amount, and
    /// fails without any mutation otherwise.
    pub fn reserve(&mut self, mint_url: &String, amount: u64, quote_id: &String, now: u64)
        -> (r: Result<(), BrokerError>)
        requires
            old(self).wf(),
        ensures
            final(self).wf(),
            old(self).same_mints(*final(self)),
            r is Ok <==> old(self).has_mint(mint_url@)
                && old(self).available_of(mint_url@) >= amount,
            r is Ok ==> {
                &&& final(self).available_of(mint_url@) == old(self).available_of(mint_url@)
                    - amount
                &&& final(self).reserved_of(mint_url@) == old(self).reserved_of(mint_url@)
                    + amount
                &&& forall|m: Seq<char>|
                    m != mint_url@ ==> #[trigger] final(self).available_of(m)
                        == old(self).available_of(m)
                        && final(self).reserved_of(m) == old(self).reserved_of(m)
                &&& final(self).events@ == old(self).events@.push(
                    (LiquidityEventRec {
                        mint_url: *mint_url,
                        kind: EventKind::Reserve,
                        amount,
                        balance_after: (old(self).available_of(mint_url@) - amount) as u64,
                        quote_id: Some(*quote_id),
                        timestamp: now,
                    }),
                )
            },
            r is Err ==> *final(self) == *old(self),
            !old(self).has_mint(mint_url@) ==> (r matches Err(BrokerError::UnsupportedMint(u))
                && u@ == mint_url@),
            old(self).has_mint(mint_url@) && old(self).available_of(mint_url@) < amount
                ==> (r matches Err(BrokerError::InsufficientLiquidity {
                    mint_url: u, needed, available
                }) && u@ == mint_url@ && needed == amount
                    && available as int == old(self).available_of(mint_url@)),
    {
        match self.find_entry(mint_url) {
            None => Err(BrokerError::UnsupportedMint(mint_url.clone())),
            Some(i) => {
                let ghost w = self.idx_of(mint_url@);
                assert(self.entries@[w].mint_url@ == mint_url@);
                assert(i as int == w);
                let avail = self.entries[i].available;
                let resv = self.entries[i].reserved;
                if avail < amount {
                    Err(BrokerError::InsufficientLiquidity {
                        mint_url: mint_url.clone(),
                        needed: amount,
                        available: avail,
                    })
                } else {
                    let ghost pre = *self;
                    self.entries[i].available = avail - amount;
                    self.entries[i].reserved = resv + amount;
                    self.entries[i].last_updated = now;
                    let ev = LiquidityEventRec {
                        mint_url: mint_url.clone(),
                        kind: EventKind::Reserve,
                        amount,
                        balance_after: avail - amount,
                        quote_id: Some(quote_id.clone()),
                        timestamp: now,
                    };
                    self.events.push(ev);
                    proof {
                        assert(self.entries@ =~= pre.entries@.update(
                            i as int, self.entries@[i as int]));
                        Self::lemma_entry_updated(pre, *self, i as int);
                    }
                    Ok(())
                }
            },
        }
    }

    /// Return a reservation to the available balance (quote expired or
    /// failed before completion).
    pub fn release(&mut self, mint_url: &String, amount: u64, quote_id: &String, now: u64)
        -> (r: Result<(), BrokerError>)
        requires
            old(self).wf(),
        ensures
            final(self).wf(),
            old(self).same_mints(*final(self)),
            r is Ok <==> old(self).has_mint(mint_url@)
                && old(self).reserved_of(mint_url@) >= amount,
            r is Ok ==> {
                &&& final(self).available_of(mint_url@) == old(self).available_of(mint_url@)
                    + amount
                &&& final(self).reserved_of(mint_url@) == old(self).reserved_of(mint_url@)
                    - amount
                &&& forall|m: Seq<char>|
                    m != mint_url@ ==> #[trigger] final(self).available_of(m)
                        == old(self).available_of(m)
                        && final(self).reserved_of(m) == old(self).reserved_of(m)
                &&& final(self).events@ == old(self).events@.push(
                    (LiquidityEventRec {
                        mint_url: *mint_url,
                        kind: EventKind::Release,
                        amount,
                        balance_after: (old(self).available_of(mint_url@) + amount) as u64,
                        quote_id: Some(*quote_id),
                        timestamp: now,
                    }),
                )
            },
            r is Err ==> *final(self) == *old(self),
            !old(self).has_mint(mint_url@) ==> (r matches Err(BrokerError::UnsupportedMint(u))
                && u@ == mint_url@),
            old(self).has_mint(mint_url@) && old(self).reserved_of(mint_url@) < amount
                ==> r matches Err(BrokerError::InvalidSwapRequest(_)),
    {
        match self.find_entry(mint_url) {
            None => Err(BrokerError::UnsupportedMint(mint_url.clone())),
            Some(i) => {
                let ghost w = self.idx_of(mint_url@);
                assert(self.entries@[w].mint_url@ == mint_url@);
                assert(i as int == w);
                let avail = self.entries[i].available;
                let resv = self.entries[i].reserved;
                if resv < amount {
                    Err(BrokerError::InvalidSwapRequest("release exceeds reservation".to_owned()))
                } else {
                    let ghost pre = *self;
                    self.entries[i].available = avail + amount;
                    self.entries[i].reserved = resv - amount;
                    self.entries[i].last_updated = now;
                    let ev = LiquidityEventRec {
                        mint_url: mint_url.clone(),
                        kind: EventKind::Release,
                        amount,
                        balance_after: avail + amount,
                        quote_id: Some(quote_id.clone()),
                        timestamp: now,
                    };
                    self.events.push(ev);
                    proof {
                        assert(self.entries@ =~= pre.entries@.update(
                            i as int, self.entries@[i as int]));
                        Self::lemma_entry_updated(pre, *self, i as int);
                    }
                    Ok(())
                }
            },
        }
    }

    /// Settle a completed swap: destroy the reservation of `out_amount` on
    /// the target mint (the tokens left the broker), and credit `in_amount`
    /// to the source mint (the client's tokens joined the broker's funds).
    pub fn commit(
        &mut self,
        to_mint: &String,
        out_amount: u64,
        from_mint: &String,
        in_amount: u64,
        quote_id: &String,
        now: u64,
    ) -> (r: Result<(), BrokerError>)
        requires
            old(self).wf(),
        ensures
            final(self).wf(),
            old(self).same_mints(*final(self)),
            r is Ok <==> {
                &&& old(self).has_mint(to_mint@)
                &&& old(self).has_mint(from_mint@)
                &&& to_mint@ != from_mint@
                &&& old(self).reserved_of(to_mint@) >= out_amount
                &&& old(self).available_of(from_mint@) + old(self).reserved_of(from_mint@)
                    + in_amount <= u64::MAX
            },
            r is Ok ==> {
                &&& final(self).reserved_of(to_mint@) == old(self).reserved_of(to_mint@)
                    - out_amount
                &&& final(self).available_of(to_mint@) == old(self).available_of(to_mint@)
                &&& final(self).available_of(from_mint@) == old(self).available_of(from_mint@)
                    + in_amount
                &&& final(self).reserved_of(from_mint@) == old(self).reserved_of(from_mint@)
                &&& forall|m: Seq<char>|
                    m != to_mint@ && m != from_mint@
                        ==> #[trigger] final(self).available_of(m) == old(self).available_of(m)
                            && final(self).reserved_of(m) == old(self).reserved_of(m)
                &&& final(self).events@ == old(self).events@.push(
                    (LiquidityEventRec {
                        mint_url: *to_mint,
                        kind: EventKind::SwapOut,
                        amount: out_amount,
                        balance_after: old(self).available_of(to_mint@) as u64,
                        quote_id: Some(*quote_id),
                        timestamp: now,
                    }),
                ).push(
                    (LiquidityEventRec {
                        mint_url: *from_mint,
                        kind: EventKind::SwapIn,
                        amount: in_amount,
                        balance_after: (old(self).available_of(from_mint@) + in_amount) as u64,
                        quote_id: Some(*quote_id),
                        timestamp: now,
                    }),
                )
            },
            r is Err ==> *final(self) == *old(self),
            !old(self).has_mint(to_mint@) ==> (r matches Err(BrokerError::UnsupportedMint(u))
                && u@ == to_mint@),
    {
        let i = match self.find_entry(to_mint) {
            None => {
                return Err(BrokerError::UnsupportedMint(to_mint.clone()));
            },
            Some(i) => i,
        };
        let j = match self.find_entry(from_mint) {
            None => {
                return Err(BrokerError::UnsupportedMint(from_mint.clone()));
            },
            Some(j) => j,
        };
        if i == j {
            return Err(BrokerError::InvalidSwapRequest("same mint on both legs".to_owned()));
        }
        let ghost wi = self.idx_of(to_mint@);
        let ghost wj = self.idx_of(from_mint@);
        assert(self.entries@[wi].mint_url@ == to_mint@);
        assert(self.entries@[wj].mint_url@ == from_mint@);
        assert(i as int == wi);
        assert(j as int == wj);
        let to_avail = self.entries[i].available;
        let to_resv = self.entries[i].reserved;
        let from_avail = self.entries[j].available;
        let from_resv = self.entries[j].reserved;
        if to_resv < out_amount {
            return Err(BrokerError::InvalidSwapRequest("commit exceeds reservation".to_owned()));
        }
        if in_amount > (u64::MAX - from_avail) - from_resv {
            return Err(BrokerError::InvalidSwapRequest("credit overflows balance".to_owned()));
        }
        let ghost pre = *self;
        self.entries[i].reserved = to_resv - out_amount;
        self.entries[i].last_updated = now;
        let ev_out = LiquidityEventRec {
            mint_url: to_mint.clone(),
            kind: EventKind::SwapOut,
            amount: out_amount,
            balance_after: to_avail,
            quote_id: Some(quote_id.clone()),
            timestamp: now,
        };
        self.events.push(ev_out);
        proof {
            assert(self.entries@ =~= pre.entries@.update(i as int, self.entries@[i as int]));
            Self::lemma_entry_updated(pre, *self, i as int);
        }
        let ghost mid = *self;
        self.entries[j].available = from_avail + in_amount;
        self.entries[j].last_updated = now;
        let ev_in = LiquidityEventRec {
            mint_url: from_mint.clone(),
            kind: EventKind::SwapIn,
            amount: in_amount,
            balance_after: from_avail + in_amount,
            quote_id: Some(quote_id.clone()),
            timestamp: now,
        };
        self.events.push(ev_in);
        proof {
            assert(self.entries@ =~= mid.entries@.update(j as int, self.entries@[j as int]));
            Self::lemma_entry_updated(mid, *self, j as int);
        }
        Ok(())
    }
}

/// Copy a list of amounts.
fn copy_amounts(v: &Vec<u64>) -> (r: Vec<u64>)
    ensures
        r@ == v@,
{
    let mut r: Vec<u64> = Vec::new();
    let n = v.len();
    let mut i: usize = 0;
    while i < n
        invariant
            n == v@.len(),
            i <= n,
            r@ == v@.subrange(0, i as int),
        decreases n - i,
    {
        r.push(v[i]);
        assert(r@ =~= v@.subrange(0, i + 1));
        i += 1;
    }
    assert(r@ =~= v@);
    r
}

/// Greedily select proofs, largest first, until they cover `amount`.
///
/// On success the selection is drawn from `amounts` (as a multiset), comes
/// out in non-increasing order, covers `amount`, and is minimal in the sense
/// that dropping its last (smallest) pick would no longer cover it. When
/// the whole inventory cannot cover the amount, nothing is selected and the
/// shortfall is reported against `mint_url`.
pub fn select_proofs(mint_url: &String, amounts: &Vec<u64>, amount: u64) -> (r: Result<
    Vec<u64>, BrokerError>)
    ensures
        r is Ok <==> sum_amounts(amounts@) >= amount,
        r matches Ok(sel) ==> {
            &&& sum_amounts(sel@) >= amount
            &&& sel@.to_multiset().subset_of(amounts@.to_multiset())
            &&& (sel@.len() > 0 ==> sum_amounts(sel@.drop_last()) < amount)
            &&& forall|i: int, j: int| 0 <= i < j < sel@.len() ==> sel@[i] >= sel@[j]
        },
        r matches Err(BrokerError::InsufficientLiquidity { mint_url: u, needed, available })
            ==> u@ == mint_url@ && needed == amount && available == sum_amounts(amounts@)
                && available < amount,
        r is Err ==> r matches Err(BrokerError::InsufficientLiquidity { .. }),
{
    broadcast use vstd::seq_lib::group_to_multiset_ensures;

    let mut remaining = copy_amounts(amounts);
    let mut selected: Vec<u64> = Vec::new();
    let mut total: u128 = 0;
    proof {
        lemma_sum_amounts_nonneg(amounts@);
        assert(selected@.to_multiset().add(remaining@.to_multiset())
            =~= amounts@.to_multiset());
    }
    while total < (amount as u128) && remaining.len() > 0
        invariant
            total == sum_amounts(selected@),
            sum_amounts(selected@) + sum_amounts(remaining@) == sum_amounts(amounts@),
            selected@.to_multiset().add(remaining@.to_multiset()) == amounts@.to_multiset(),
            selected@.len() > 0 ==> sum_amounts(selected@.drop_last()) < amount,
            selected@.len() == 0 ==> total == 0,
            forall|i: int, j: int| 0 <= i < j < selected@.len() ==> selected@[i] >= selected@[j],
            forall|i: int, j: int|
                0 <= i < selected@.len() && 0 <= j < remaining@.len()
                    ==> #[trigger] selected@[i] >= #[trigger] remaining@[j],
        decreases remaining@.len(),
    {
        let mut imax: usize = 0;
        let mut k: usize = 1;
        while k < remaining.len()
            invariant
                remaining@.len() > 0,
                imax < k <= remaining@.len(),
                forall|j: int| 0 <= j < k ==> remaining@[j] <= remaining@[imax as int],
            decreases remaining@.len() - k,
        {
            if remaining[k] > remaining[imax] {
                imax = k;
            }
            k += 1;
        }
        let ghost pre_sel = selected@;
        let ghost pre_rem = remaining@;
        let v = remaining.remove(imax);
        selected.push(v);
        proof {
            broadcast use vstd::seq_lib::group_to_multiset_ensures;

            lemma_sum_amounts_remove(pre_rem, imax as int);
            assert(selected@.drop_last() =~= pre_sel);
            assert(sum_amounts(selected@) == sum_amounts(pre_sel) + v);
            assert(remaining@ == pre_rem.remove(imax as int));
            assert(pre_rem.remove(imax as int).to_multiset()
                =~= pre_rem.to_multiset().remove(v));
            assert(selected@ == pre_sel.push(v));
            assert(pre_sel.push(v).to_multiset() =~= pre_sel.to_multiset().insert(v));
            assert(selected@.to_multiset().add(remaining@.to_multiset())
                =~= amounts@.to_multiset());
            lemma_sum_amounts_nonneg(remaining@);
            assert forall|i: int, j: int|
                0 <= i < selected@.len() && 0 <= j < remaining@.len()
                    implies #[trigger] selected@[i] >= #[trigger] remaining@[j] by {
                assert(remaining@[j] == pre_rem.remove(imax as int)[j]);
                if j < imax {
                    assert(pre_rem.remove(imax as int)[j] == pre_rem[j]);
                } else {
                    assert(pre_rem.remove(imax as int)[j] == pre_rem[j + 1]);
                }
                if i < selected@.len() - 1 {
                    assert(selected@[i] == pre_sel[i]);
                }
            }
        }
        total = total + (v as u128);
    }
    if total < (amount as u128) {
        proof {
            assert(remaining@.len() == 0);
            assert(sum_amounts(remaining@) == 0);
        }
        let available: u64 = total as u64;
        Err(BrokerError::InsufficientLiquidity {
            mint_url: mint_url.clone(),
            needed: amount,
            available,
        })
    } else {
        proof {
            lemma_sum_amounts_nonneg(remaining@);
            assert forall|x: u64|
                selected@.to_multiset().count(x) <= amounts@.to_multiset().count(x) by {
                assert(amounts@.to_multiset().count(x) == selected@.to_multiset().count(x)
                    + remaining@.to_multiset().count(x));
            }
        }
        Ok(selected)
    }
}

} // verus!
