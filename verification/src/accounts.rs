//! Observations of host-held token accounts.
//!
//! The host environment owns account storage, canonical address derivation
//! and the token ledger. Before a call it reads each supplied account
//! reference into an [`AccountRef`]: the plain facts the engine's decisions
//! depend on. The engine never touches the accounts themselves; it validates
//! these observations and decides what to transfer.

use vstd::prelude::*;

use crate::errors::ErrorCode;
use crate::state::Address;

verus! {

/// What the host observed about one supplied account reference.
#[derive(Clone, Copy, PartialEq, Eq, Structural, Debug)]
pub struct AccountRef {
    /// The reference's address.
    pub key: Address,
    /// Whether the account exists (holds data).
    pub exists: bool,
    /// Whether the reference's address is the canonical derived
    /// receiving-account address for the owner and mint this position is
    /// supplied for.
    pub canonical: bool,
    /// Whether the account is owned by a recognized token-ledger program.
    pub token_program_owned: bool,
    /// Whether the account's data parses as a token account.
    pub is_token_account: bool,
    /// Whether the account is frozen.
    pub frozen: bool,
    /// The wallet recorded as the token account's owner.
    pub owner: Address,
    /// The mint recorded in the token account.
    pub mint: Address,
    /// The recorded token balance.
    pub amount: u64,
    /// Whether the reference was supplied writable.
    pub is_writable: bool,
}

/// Whether the account is frozen: it must parse as a token account to
/// report a frozen state; anything else counts as not frozen.
pub open spec fn spec_is_account_frozen(a: &AccountRef) -> bool {
    a.is_token_account && a.frozen
}

/// Whether the account is frozen (an account that does not parse as a token
/// account counts as not frozen).
#[verifier::when_used_as_spec(spec_is_account_frozen)]
pub fn is_account_frozen(account: &AccountRef) -> (r: bool)
    ensures
        r == spec_is_account_frozen(account),
{
    account.is_token_account && account.frozen
}

/// Whether a transfer to this account can be attempted at all: it exists and
/// is not frozen. A missing or frozen account turns a payout into a
/// liability instead of an error.
pub open spec fn spec_usable(a: &AccountRef) -> bool {
    a.exists && !spec_is_account_frozen(a)
}

/// Whether a transfer to this account can be attempted at all.
#[verifier::when_used_as_spec(spec_usable)]
pub fn usable(account: &AccountRef) -> (r: bool)
    ensures
        r == spec_usable(account),
{
    account.exists && !is_account_frozen(account)
}

/// The first reason this account must be rejected as a receiving account for
/// `recipient_address` under `mint`, or `None` if it passes.
///
/// This is the check made at create and update time; it does not ask for the
/// canonical address.
pub open spec fn spec_recipient_ata_error(
    a: AccountRef,
    recipient_address: Address,
    mint: Address,
) -> Option<ErrorCode> {
    if !a.exists {
        Some(ErrorCode::RecipientATADoesNotExist)
    } else if !a.token_program_owned {
        Some(ErrorCode::InvalidTokenProgram)
    } else if !a.is_token_account {
        Some(ErrorCode::RecipientATAInvalid)
    } else if a.owner != recipient_address {
        Some(ErrorCode::RecipientATAWrongOwner)
    } else if a.mint != mint {
        Some(ErrorCode::RecipientATAWrongMint)
    } else {
        None
    }
}

/// Validates that a recipient's receiving account exists and is correctly
/// configured for `recipient_address` and `mint`.
///
/// Used at create and update time to ensure recipients are ready.
pub fn validate_recipient_ata(
    ata: &AccountRef,
    recipient_address: &Address,
    mint: &Address,
) -> (r: Result<(), ErrorCode>)
    ensures
        r == match spec_recipient_ata_error(*ata, *recipient_address, *mint) {
            Some(e) => Result::<(), ErrorCode>::Err(e),
            None => Result::<(), ErrorCode>::Ok(()),
        },
{
    if !ata.exists {
        return Err(ErrorCode::RecipientATADoesNotExist);
    }
    if !ata.token_program_owned {
        return Err(ErrorCode::InvalidTokenProgram);
    }
    if !ata.is_token_account {
        return Err(ErrorCode::RecipientATAInvalid);
    }
    if ata.owner != *recipient_address {
        return Err(ErrorCode::RecipientATAWrongOwner);
    }
    if ata.mint != *mint {
        return Err(ErrorCode::RecipientATAWrongMint);
    }
    Ok(())
}

} // verus!
