//! The persistent accounting records and their invariants.

use vstd::prelude::*;

use crate::constants::{MAX_RECIPIENTS, MIN_RECIPIENTS, REQUIRED_SPLIT_TOTAL};
use crate::utils::sum_bps;

verus! {

/// A 32-byte account address, held as two unsigned halves (`hi` holds the
/// first 16 bytes big-endian, `lo` the last 16).
///
/// The all-zero address is the none-sentinel: it is never a valid recipient
/// and marks the absence of a pending authority.
#[derive(Clone, Copy, PartialEq, Eq, Structural, Debug)]
pub struct Address {
    pub hi: u128,
    pub lo: u128,
}

impl Address {
    /// Whether this is the all-zero sentinel address.
    pub open spec fn spec_is_zero(&self) -> bool {
        self.hi == 0 && self.lo == 0
    }

    /// Whether this is the all-zero sentinel address.
    #[verifier::when_used_as_spec(spec_is_zero)]
    pub fn is_zero(&self) -> (r: bool)
        ensures
            r == self.spec_is_zero(),
    {
        self.hi == 0 && self.lo == 0
    }

    /// The all-zero sentinel address.
    pub fn zero() -> (r: Address)
        ensures
            r.spec_is_zero(),
    {
        Address { hi: 0, lo: 0 }
    }
}

/// One recipient of a split: a wallet address and its share in basis points.
#[derive(Clone, Copy, PartialEq, Eq, Structural, Debug)]
pub struct Recipient {
    /// Recipient's wallet address.
    pub address: Address,
    /// Share in basis points (1 to 9900, where 100 = 1%).
    pub percentage_bps: u16,
}

/// A recorded, owed-but-not-yet-delivered amount held against one recipient.
#[derive(Clone, Copy, PartialEq, Eq, Structural, Debug)]
pub struct UnclaimedAmount {
    /// Recipient address (a copy of the owning recipient's, for lookup).
    pub recipient: Address,
    /// Amount held as unclaimed.
    pub amount: u64,
    /// Time of the last accrual.
    pub timestamp: i64,
}

/// A recipient entry as supplied to create and update.
#[derive(Clone, Copy, PartialEq, Eq, Structural, Debug)]
pub struct RecipientInput {
    pub address: Address,
    pub percentage_bps: u16,
}

/// Global protocol configuration (single instance).
#[derive(Clone, Copy, PartialEq, Eq, Structural, Debug)]
pub struct ProtocolConfig {
    /// Authority that can update the configuration.
    pub authority: Address,
    /// Pending authority for the two-step transfer (zero = none pending).
    pub pending_authority: Address,
    /// Wallet that receives protocol fees.
    pub fee_wallet: Address,
}

/// Per-split configuration: the recipient table and its liability ledger.
///
/// Recipients and unclaimed entries are parallel sequences of the same
/// length; distribution iterates them in stored order.
#[derive(Clone, PartialEq, Debug)]
pub struct SplitConfig {
    /// Schema version for future layout evolution.
    pub version: u8,
    /// Authority that can update or close this split.
    pub authority: Address,
    /// Token mint for this split.
    pub mint: Address,
    /// Vault address holding the pooled balance.
    pub vault: Address,
    /// Disambiguator allowing several splits per authority and mint.
    pub unique_id: Address,
    /// Account entitled to the reclaimed storage deposit on close.
    pub rent_payer: Address,
    /// Active recipients, in distribution order.
    pub recipients: Vec<Recipient>,
    /// Per-recipient liabilities, parallel to `recipients`.
    pub unclaimed_amounts: Vec<UnclaimedAmount>,
    /// Protocol-fee liability awaiting a usable fee account.
    pub protocol_unclaimed: u64,
    /// Time of the last distribution call.
    pub last_activity: i64,
}

impl SplitConfig {
    /// Structural invariant: the recipient table is a valid split and the
    /// liability ledger runs parallel to it.
    pub open spec fn wf(self) -> bool {
        &&& MIN_RECIPIENTS <= self.recipients@.len() <= MAX_RECIPIENTS
        &&& self.unclaimed_amounts@.len() == self.recipients@.len()
        &&& sum_bps(self.recipients@) == REQUIRED_SPLIT_TOTAL as int
        &&& forall|i: int|
            0 <= i < self.recipients@.len() ==> !(#[trigger] self.recipients@[i]).address.spec_is_zero()
        &&& forall|i: int|
            0 <= i < self.recipients@.len() ==> (#[trigger] self.recipients@[i]).percentage_bps > 0
        &&& forall|i: int, j: int|
            0 <= i < j < self.recipients@.len()
                ==> self.recipients@[i].address != self.recipients@[j].address
    }

    /// Number of active recipients.
    pub open spec fn spec_recipient_count(&self) -> int {
        self.recipients@.len() as int
    }

    /// Number of active recipients.
    pub fn recipient_count(&self) -> (n: usize)
        ensures
            n == self.spec_recipient_count(),
    {
        self.recipients.len()
    }
}

} // verus!
