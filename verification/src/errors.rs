//! Stable error codes surfaced by every operation.

use vstd::prelude::*;

verus! {

/// Every way an operation can fail.
///
/// Validation and authorization errors abort a call before any state change;
/// arithmetic errors signal a hostile input or a broken accounting invariant;
/// the receiving-account errors are raised only where a mismatched account
/// would otherwise misdirect funds.
#[derive(Clone, Copy, PartialEq, Eq, Structural, Debug)]
pub enum ErrorCode {
    /// Recipient count must be between 1 and 20.
    InvalidRecipientCount,
    /// Recipient percentages must sum to 9900 bps (99%).
    InvalidSplitTotal,
    /// Duplicate recipient address.
    DuplicateRecipient,
    /// Recipient address cannot be zero.
    ZeroAddress,
    /// Recipient percentage cannot be zero.
    ZeroPercentage,
    /// Recipient receiving account does not exist.
    RecipientATADoesNotExist,
    /// Recipient receiving account is invalid.
    RecipientATAInvalid,
    /// Recipient receiving account has the wrong owner.
    RecipientATAWrongOwner,
    /// Recipient receiving account has the wrong mint.
    RecipientATAWrongMint,
    /// Vault must be empty for this operation.
    VaultNotEmpty,
    /// Invalid vault account.
    InvalidVault,
    /// Not enough receiving-account references were supplied.
    InsufficientRemainingAccounts,
    /// Math overflow.
    MathOverflow,
    /// Math underflow.
    MathUnderflow,
    /// Invalid protocol fee recipient.
    InvalidProtocolFeeRecipient,
    /// Unauthorized.
    Unauthorized,
    /// Unclaimed amounts must be zero for this operation.
    UnclaimedNotEmpty,
    /// Account is not owned by a recognized token program.
    InvalidTokenProgram,
    /// No pending authority transfer.
    NoPendingTransfer,
    /// Rent destination does not match the recorded rent payer.
    InvalidRentDestination,
}

} // verus!
