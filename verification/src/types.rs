//! Configuration and quote data types.

use vstd::prelude::*;
use vstd::string::StrSliceExecFns;

verus! {

/// A mint the broker supports.
pub struct MintConfig {
    pub mint_url: String,
    pub name: String,
    pub unit: String,
}

/// Broker-wide configuration. The fee rate is kept in parts per million so
/// that fee arithmetic is exact integer arithmetic.
pub struct BrokerConfig {
    pub mints: Vec<MintConfig>,
    /// Fee rate in parts per million; must be below 1_000_000 (a rate below 1).
    pub fee_rate_ppm: u64,
    pub min_swap_amount: u64,
    pub max_swap_amount: u64,
    pub quote_expiry_seconds: u64,
}

impl BrokerConfig {
    /// The configuration states a fee rate below one and an amount window
    /// that is not empty.
    pub open spec fn wf(self) -> bool {
        &&& self.fee_rate_ppm < 1_000_000
        &&& self.min_swap_amount <= self.max_swap_amount
        &&& 1 <= self.min_swap_amount
    }
}

impl Default for BrokerConfig {
    /// A 0.5% fee, swaps between 1 and 10_000 units, quotes valid 300 seconds.
    fn default() -> (r: Self)
        ensures
            r.mints@.len() == 0,
            r.fee_rate_ppm == 5000,
            r.min_swap_amount == 1,
            r.max_swap_amount == 10_000,
            r.quote_expiry_seconds == 300,
            r.wf(),
    {
        BrokerConfig {
            mints: Vec::new(),
            fee_rate_ppm: 5000,
            min_swap_amount: 1,
            max_swap_amount: 10_000,
            quote_expiry_seconds: 300,
        }
    }
}

/// Status of a quote as it moves through the swap state machine.
#[derive(Debug, Clone, Copy, PartialEq, Eq, Structural)]
pub enum SwapStatus {
    Pending,
    Accepted,
    Completed,
    Expired,
    Failed,
}

impl SwapStatus {
    /// Position along the forward path of the state machine.
    pub open spec fn rank(self) -> int {
        match self {
            SwapStatus::Pending => 0,
            SwapStatus::Accepted => 1,
            SwapStatus::Completed => 2,
            SwapStatus::Expired => 2,
            SwapStatus::Failed => 2,
        }
    }

    /// A terminal status never changes again.
    pub open spec fn is_terminal(self) -> bool {
        match self {
            SwapStatus::Pending => false,
            SwapStatus::Accepted => false,
            SwapStatus::Completed => true,
            SwapStatus::Expired => true,
            SwapStatus::Failed => true,
        }
    }

    /// A quote in this status holds a liquidity reservation on its target mint.
    pub open spec fn holds_reservation(self) -> bool {
        self == SwapStatus::Pending || self == SwapStatus::Accepted
    }

    /// The single-step transition relation of the state machine:
    /// `Pending -> Accepted -> Completed`, with `Expired` and `Failed`
    /// reachable from either non-terminal status, and every status allowed
    /// to stay where it is.
    pub open spec fn can_step(self, next: SwapStatus) -> bool {
        ||| next == self
        ||| (self == SwapStatus::Pending && (next == SwapStatus::Accepted
                || next == SwapStatus::Expired || next == SwapStatus::Failed))
        ||| (self == SwapStatus::Accepted && (next == SwapStatus::Completed
                || next == SwapStatus::Expired || next == SwapStatus::Failed))
    }

    /// The lowercase wire name of each status.
    pub open spec fn spec_str(self) -> Seq<char> {
        match self {
            SwapStatus::Pending => "pending"@,
            SwapStatus::Accepted => "accepted"@,
            SwapStatus::Completed => "completed"@,
            SwapStatus::Expired => "expired"@,
            SwapStatus::Failed => "failed"@,
        }
    }

    /// Lowercase name of the status, as it appears on the wire and in stored
    /// records.
    pub fn as_str_name(&self) -> (r: String)
        ensures
            r@ == self.spec_str(),
    {
        match self {
            SwapStatus::Pending => "pending".to_owned(),
            SwapStatus::Accepted => "accepted".to_owned(),
            SwapStatus::Completed => "completed".to_owned(),
            SwapStatus::Expired => "expired".to_owned(),
            SwapStatus::Failed => "failed".to_owned(),
        }
    }

    /// What `parse` accepts: the five status names, in any mix of case.
    pub open spec fn spec_parse(s: Seq<char>) -> Option<SwapStatus> {
        if chars_eq_ci(s, "pending"@) {
            Some(SwapStatus::Pending)
        } else if chars_eq_ci(s, "accepted"@) {
            Some(SwapStatus::Accepted)
        } else if chars_eq_ci(s, "completed"@) {
            Some(SwapStatus::Completed)
        } else if chars_eq_ci(s, "expired"@) {
            Some(SwapStatus::Expired)
        } else if chars_eq_ci(s, "failed"@) {
            Some(SwapStatus::Failed)
        } else {
            None
        }
    }

    /// Parse a status name back into a status, accepting any mix of case
    /// (`"pending"`, `"PENDING"` and `"Pending"` all name `Pending`).
    pub fn parse(s: &String) -> (r: Option<SwapStatus>)
        ensures
            r == Self::spec_parse(s@),
    {
        let t = s.as_str();
        if str_eq_ci(t, "pending") {
            Some(SwapStatus::Pending)
        } else if str_eq_ci(t, "accepted") {
            Some(SwapStatus::Accepted)
        } else if str_eq_ci(t, "completed") {
            Some(SwapStatus::Completed)
        } else if str_eq_ci(t, "expired") {
            Some(SwapStatus::Expired)
        } else if str_eq_ci(t, "failed") {
            Some(SwapStatus::Failed)
        } else {
            None
        }
    }
}

/// The code point of a character with an ASCII uppercase letter folded to
/// its lowercase form.
pub open spec fn lower_code(c: char) -> int {
    if 65 <= c as int <= 90 {
        c as int + 32
    } else {
        c as int
    }
}

/// Two character strings are equal up to ASCII case.
pub open spec fn chars_eq_ci(s: Seq<char>, t: Seq<char>) -> bool {
    s.len() == t.len() && forall|i: int|
        0 <= i < s.len() ==> lower_code(#[trigger] s[i]) == lower_code(t[i])
}

/// Compare two strings for equality up to ASCII case.
fn str_eq_ci(s: &str, t: &str) -> (r: bool)
    ensures
        r == chars_eq_ci(s@, t@),
{
    let n = s.unicode_len();
    let m = t.unicode_len();
    if n != m {
        return false;
    }
    let mut i: usize = 0;
    while i < n
        invariant
            n == s@.len(),
            n == t@.len(),
            i <= n,
            forall|j: int| 0 <= j < i ==> lower_code(#[trigger] s@[j]) == lower_code(t@[j]),
        decreases n - i,
    {
        let a = s.get_char(i) as u32;
        let b = t.get_char(i) as u32;
        let la: u32 = if 65 <= a && a <= 90 { a + 32 } else { a };
        let lb: u32 = if 65 <= b && b <= 90 { b + 32 } else { b };
        if la != lb {
            return false;
        }
        i += 1;
    }
    true
}

/// The law of the state machine: a single step never moves backwards, and a
/// terminal status never changes.
pub proof fn lemma_status_monotone(a: SwapStatus, b: SwapStatus)
    requires
        a.can_step(b),
    ensures
        a.rank() <= b.rank(),
        a.is_terminal() ==> b == a,
{
}

/// Steps compose: two legal steps in sequence are again rank-increasing,
/// so along any path of legal steps the status follows a monotone path.
pub proof fn lemma_status_path(a: SwapStatus, b: SwapStatus, c: SwapStatus)
    requires
        a.can_step(b),
        b.can_step(c),
    ensures
        a.rank() <= c.rank(),
        a.is_terminal() ==> c == a,
{
}

/// A client's swap request.
pub struct SwapRequest {
    pub client_id: Option<String>,
    /// Mint the client pays on.
    pub from_mint: String,
    /// Mint the client wants tokens on.
    pub to_mint: String,
    pub amount: u64,
    /// The client's signing key (33-byte compressed SEC), optional at request
    /// time.
    pub client_public_key: Option<Vec<u8>>,
}

/// A quote handed to the client. Carries only public data: the broker's
/// private scalars stay inside the engine and have no field here.
pub struct SwapQuote {
    pub quote_id: String,
    pub from_mint: String,
    pub to_mint: String,
    /// What the client pays.
    pub input_amount: u64,
    /// What the client receives, after the fee.
    pub output_amount: u64,
    pub fee: u64,
    /// Fee rate in parts per million.
    pub fee_rate_ppm: u64,
    /// Broker's signing key, compressed (33 bytes).
    pub broker_public_key: Vec<u8>,
    /// Adaptor point `T = t * G`, compressed (33 bytes).
    pub adaptor_point: Vec<u8>,
    /// Tweaked key `P + T`, compressed (33 bytes).
    pub tweaked_pubkey: Option<Vec<u8>>,
    /// Seconds the quote stays valid from its creation.
    pub expires_in: u64,
    /// Absolute expiry, seconds on the broker's clock.
    pub expires_at: u64,
    pub status: SwapStatus,
}

} // verus!
