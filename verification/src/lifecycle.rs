//! Split-configuration lifecycle: validation of recipient tables, create,
//! update and close.

use vstd::prelude::*;

use crate::accounts::{spec_recipient_ata_error, validate_recipient_ata, AccountRef};
use crate::constants::{MAX_RECIPIENTS, MIN_RECIPIENTS, REQUIRED_SPLIT_TOTAL};
use crate::errors::ErrorCode;
use crate::state::{Address, Recipient, RecipientInput, SplitConfig, UnclaimedAmount};
use crate::utils::{
    lemma_sum_bps_matches_inputs, lemma_sum_input_bps_to_monotone, sum_input_bps,
    sum_input_bps_to,
};

verus! {

/// The reason entry `i` of a recipient table is rejected, or `None`:
/// a zero address, a zero share, or a duplicate of a later entry.
pub open spec fn spec_entry_error(inputs: Seq<RecipientInput>, i: int) -> Option<ErrorCode> {
    if inputs[i].address.spec_is_zero() {
        Some(ErrorCode::ZeroAddress)
    } else if inputs[i].percentage_bps == 0 {
        Some(ErrorCode::ZeroPercentage)
    } else if exists|j: int| i < j < inputs.len() && inputs[j].address == inputs[i].address {
        Some(ErrorCode::DuplicateRecipient)
    } else {
        None
    }
}

/// The first per-entry rejection among the first `n` entries, or `None`.
pub open spec fn spec_entries_error_to(inputs: Seq<RecipientInput>, n: int) -> Option<ErrorCode>
    decreases n,
{
    if n <= 0 {
        None
    } else if spec_entries_error_to(inputs, n - 1) is Some {
        spec_entries_error_to(inputs, n - 1)
    } else {
        spec_entry_error(inputs, n - 1)
    }
}

/// The first reason a proposed recipient table is rejected, or `None`:
/// the count check, then the share-total check, then the per-entry checks
/// in table order.
pub open spec fn spec_recipients_error(inputs: Seq<RecipientInput>) -> Option<ErrorCode> {
    if !(MIN_RECIPIENTS <= inputs.len() <= MAX_RECIPIENTS) {
        Some(ErrorCode::InvalidRecipientCount)
    } else if sum_input_bps(inputs) > u32::MAX {
        Some(ErrorCode::MathOverflow)
    } else if sum_input_bps(inputs) != REQUIRED_SPLIT_TOTAL as int {
        Some(ErrorCode::InvalidSplitTotal)
    } else {
        spec_entries_error_to(inputs, inputs.len() as int)
    }
}

/// A valid recipient table: 1 to 20 entries, shares summing to exactly
/// 9900 bps, no zero address, no zero share, no duplicate address.
pub open spec fn spec_valid_recipient_set(inputs: Seq<RecipientInput>) -> bool {
    &&& MIN_RECIPIENTS <= inputs.len() <= MAX_RECIPIENTS
    &&& sum_input_bps(inputs) == REQUIRED_SPLIT_TOTAL as int
    &&& forall|i: int| 0 <= i < inputs.len() ==> !(#[trigger] inputs[i]).address.spec_is_zero()
    &&& forall|i: int| 0 <= i < inputs.len() ==> (#[trigger] inputs[i]).percentage_bps > 0
    &&& forall|i: int, j: int|
        0 <= i < j < inputs.len() ==> inputs[i].address != inputs[j].address
}

proof fn lemma_entries_error_to_none(inputs: Seq<RecipientInput>, n: int)
    requires
        0 <= n,
    ensures
        spec_entries_error_to(inputs, n) is None <==> forall|i: int|
            0 <= i < n ==> spec_entry_error(inputs, i) is None,
    decreases n,
{
    if n > 0 {
        lemma_entries_error_to_none(inputs, n - 1);
    }
}

proof fn lemma_entries_error_first(inputs: Seq<RecipientInput>, i: int, m: int)
    requires
        0 <= i < m,
        spec_entries_error_to(inputs, i) is None,
        spec_entry_error(inputs, i) is Some,
    ensures
        spec_entries_error_to(inputs, m) == spec_entry_error(inputs, i),
    decreases m,
{
    if m > i + 1 {
        lemma_entries_error_first(inputs, i, m - 1);
    }
}

/// Validation passes exactly on valid recipient tables.
///
/// In particular, among tables that pass every other rule, a share total of
/// exactly 9900 bps is necessary and sufficient to pass.
pub proof fn lemma_recipients_error_none_iff_valid(inputs: Seq<RecipientInput>)
    ensures
        spec_recipients_error(inputs) is None <==> spec_valid_recipient_set(inputs),
{
    lemma_entries_error_to_none(inputs, inputs.len() as int);
    lemma_sum_input_bps_to_monotone(inputs, 0, inputs.len() as int);
    if spec_recipients_error(inputs) is None {
        assert forall|i: int|
            0 <= i < inputs.len() implies !(#[trigger] inputs[i]).address.spec_is_zero()
            && inputs[i].percentage_bps > 0 by {
            assert(spec_entry_error(inputs, i) is None);
        }
        assert forall|i: int, j: int|
            0 <= i < j < inputs.len() implies inputs[i].address != inputs[j].address by {
            assert(spec_entry_error(inputs, i) is None);
        }
    } else if spec_valid_recipient_set(inputs) {
        assert forall|i: int| 0 <= i < inputs.len() implies spec_entry_error(inputs, i) is None by {
            assert(!inputs[i].address.spec_is_zero());
            assert(inputs[i].percentage_bps > 0);
            if exists|j: int| i < j < inputs.len() && inputs[j].address == inputs[i].address {
                let j = choose|j: int| i < j < inputs.len() && inputs[j].address == inputs[i].address;
                assert(inputs[i].address != inputs[j].address);
            }
        }
    }
}

#[verifier::loop_isolation(false)]
fn sum_inputs_checked(inputs: &Vec<RecipientInput>) -> (r: Option<u32>)
    ensures
        sum_input_bps(inputs@) <= u32::MAX ==> r == Some(sum_input_bps(inputs@) as u32),
        sum_input_bps(inputs@) > u32::MAX ==> r is None,
{
    let n = inputs.len();
    let mut acc: u32 = 0;
    let mut i: usize = 0;
    while i < n
        invariant
            0 <= i <= n,
            n == inputs@.len(),
            acc == sum_input_bps_to(inputs@, i as int),
        decreases n - i,
    {
        let bps = inputs[i].percentage_bps;
        if acc > u32::MAX - (bps as u32) {
            proof {
                lemma_sum_input_bps_to_monotone(inputs@, i as int + 1, n as int);
            }
            return None;
        }
        acc = acc + (bps as u32);
        i = i + 1;
    }
    Some(acc)
}

/// Validates a proposed recipient table, reporting the first rule it
/// breaks: count in range, shares summing to exactly 9900 bps, then per
/// entry no zero address, no zero share, no duplicate address.
#[verifier::loop_isolation(false)]
pub fn validate_recipient_inputs(inputs: &Vec<RecipientInput>) -> (r: Result<(), ErrorCode>)
    ensures
        r == match spec_recipients_error(inputs@) {
            Some(e) => Result::<(), ErrorCode>::Err(e),
            None => Result::<(), ErrorCode>::Ok(()),
        },
        r is Ok <==> spec_valid_recipient_set(inputs@),
{
    proof {
        lemma_recipients_error_none_iff_valid(inputs@);
    }
    let n = inputs.len();
    if n < MIN_RECIPIENTS || n > MAX_RECIPIENTS {
        return Err(ErrorCode::InvalidRecipientCount);
    }
    let total_bps = match sum_inputs_checked(inputs) {
        Some(t) => t,
        None => {
            return Err(ErrorCode::MathOverflow);
        },
    };
    if total_bps != REQUIRED_SPLIT_TOTAL as u32 {
        return Err(ErrorCode::InvalidSplitTotal);
    }
    proof {
        lemma_sum_input_bps_to_monotone(inputs@, 0, inputs@.len() as int);
    }
    let mut i: usize = 0;
    while i < n
        invariant
            0 <= i <= n,
            n == inputs@.len(),
            MIN_RECIPIENTS <= n <= MAX_RECIPIENTS,
            sum_input_bps(inputs@) == REQUIRED_SPLIT_TOTAL as int,
            spec_entries_error_to(inputs@, i as int) is None,
        decreases n - i,
    {
        let entry = inputs[i];
        if entry.address.is_zero() {
            proof {
                lemma_entries_error_first(inputs@, i as int, n as int);
            }
            return Err(ErrorCode::ZeroAddress);
        }
        if entry.percentage_bps == 0 {
            proof {
                lemma_entries_error_first(inputs@, i as int, n as int);
            }
            return Err(ErrorCode::ZeroPercentage);
        }
        let mut j: usize = i + 1;
        while j < n
            invariant
                i < j <= n,
                n == inputs@.len(),
                entry == inputs@[i as int],
                forall|k: int| i < k < j ==> inputs@[k].address != inputs@[i as int].address,
            decreases n - j,
        {
            if inputs[j].address == entry.address {
                proof {
                    assert(spec_entry_error(inputs@, i as int) == Some(
                        ErrorCode::DuplicateRecipient,
                    ));
                    lemma_entries_error_first(inputs@, i as int, n as int);
                }
                return Err(ErrorCode::DuplicateRecipient);
            }
            j = j + 1;
        }
        proof {
            assert(spec_entry_error(inputs@, i as int) is None);
        }
        i = i + 1;
    }
    Ok(())
}

/// The first rejection among the first `n` receiving accounts, each checked
/// against its recipient's address and the split's mint, or `None`.
pub open spec fn spec_atas_error_to(
    inputs: Seq<RecipientInput>,
    atas: Seq<AccountRef>,
    mint: Address,
    n: int,
) -> Option<ErrorCode>
    decreases n,
{
    if n <= 0 {
        None
    } else if spec_atas_error_to(inputs, atas, mint, n - 1) is Some {
        spec_atas_error_to(inputs, atas, mint, n - 1)
    } else {
        spec_recipient_ata_error(atas[n - 1], inputs[n - 1].address, mint)
    }
}

proof fn lemma_atas_error_first(
    inputs: Seq<RecipientInput>,
    atas: Seq<AccountRef>,
    mint: Address,
    i: int,
    m: int,
)
    requires
        0 <= i < m,
        spec_atas_error_to(inputs, atas, mint, i) is None,
        spec_recipient_ata_error(atas[i], inputs[i].address, mint) is Some,
    ensures
        spec_atas_error_to(inputs, atas, mint, m) == spec_recipient_ata_error(
            atas[i],
            inputs[i].address,
            mint,
        ),
    decreases m,
{
    if m > i + 1 {
        lemma_atas_error_first(inputs, atas, mint, i, m - 1);
    }
}

/// Validates every recipient's receiving account, in table order.
#[verifier::loop_isolation(false)]
fn validate_recipient_atas(
    inputs: &Vec<RecipientInput>,
    atas: &Vec<AccountRef>,
    mint: &Address,
) -> (r: Result<(), ErrorCode>)
    requires
        inputs@.len() <= atas@.len(),
    ensures
        r == match spec_atas_error_to(inputs@, atas@, *mint, inputs@.len() as int) {
            Some(e) => Result::<(), ErrorCode>::Err(e),
            None => Result::<(), ErrorCode>::Ok(()),
        },
{
    let n = inputs.len();
    let mut i: usize = 0;
    while i < n
        invariant
            0 <= i <= n,
            n == inputs@.len(),
            n <= atas@.len(),
            spec_atas_error_to(inputs@, atas@, *mint, i as int) is None,
        decreases n - i,
    {
        match validate_recipient_ata(&atas[i], &inputs[i].address, mint) {
            Ok(_) => {},
            Err(e) => {
                proof {
                    lemma_atas_error_first(inputs@, atas@, *mint, i as int, n as int);
                }
                return Err(e);
            },
        }
        i = i + 1;
    }
    Ok(())
}

/// The first reason a create call is rejected, or `None`.
pub open spec fn spec_create_error(
    inputs: Seq<RecipientInput>,
    atas: Seq<AccountRef>,
    mint: Address,
) -> Option<ErrorCode> {
    if spec_recipients_error(inputs) is Some {
        spec_recipients_error(inputs)
    } else if atas.len() < inputs.len() {
        Some(ErrorCode::InsufficientRemainingAccounts)
    } else {
        spec_atas_error_to(inputs, atas, mint, inputs.len() as int)
    }
}

/// The recipient table a valid input list denotes.
pub open spec fn spec_recipients_of(inputs: Seq<RecipientInput>) -> Seq<Recipient> {
    Seq::new(
        inputs.len(),
        |i: int| Recipient { address: inputs[i].address, percentage_bps: inputs[i].percentage_bps },
    )
}

/// A zeroed liability ledger of length `n`.
pub open spec fn spec_zeroed_unclaimed(n: int) -> Seq<UnclaimedAmount> {
    Seq::new(
        n as nat,
        |i: int| UnclaimedAmount { recipient: Address { hi: 0, lo: 0 }, amount: 0, timestamp: 0 },
    )
}

/// No liability is outstanding: every per-recipient unclaimed amount and the
/// protocol's unclaimed amount are zero.
pub open spec fn spec_liabilities_clear(c: SplitConfig) -> bool {
    &&& forall|i: int|
        0 <= i < c.unclaimed_amounts@.len() ==> (#[trigger] c.unclaimed_amounts@[i]).amount == 0
    &&& c.protocol_unclaimed == 0
}

/// A valid input table denotes a well-formed recipient table.
pub proof fn lemma_valid_inputs_make_wf(inputs: Seq<RecipientInput>, c: SplitConfig)
    requires
        spec_valid_recipient_set(inputs),
        c.recipients@ == spec_recipients_of(inputs),
        c.unclaimed_amounts@.len() == inputs.len(),
    ensures
        c.wf(),
{
    lemma_sum_bps_matches_inputs(c.recipients@, inputs, inputs.len() as int);
}

/// Creates a split configuration.
///
/// Validates the recipient table, then requires one existing, correctly
/// configured receiving account per recipient (in table order). On success
/// the record starts with a zeroed liability ledger and records `rent_payer`
/// as entitled to the storage deposit on close.
#[verifier::loop_isolation(false)]
pub fn create_split_config(
    authority: Address,
    mint: Address,
    vault: Address,
    unique_id: Address,
    rent_payer: Address,
    recipients: &Vec<RecipientInput>,
    recipient_atas: &Vec<AccountRef>,
) -> (r: Result<SplitConfig, ErrorCode>)
    ensures
        r matches Err(e) ==> spec_create_error(recipients@, recipient_atas@, mint) == Some(e),
        spec_create_error(recipients@, recipient_atas@, mint) matches Some(e)
            ==> r == Err::<SplitConfig, _>(e),
        r matches Ok(c) ==> {
            &&& spec_create_error(recipients@, recipient_atas@, mint) is None
            &&& c.wf()
            &&& c.version == 1
            &&& c.authority == authority
            &&& c.mint == mint
            &&& c.vault == vault
            &&& c.unique_id == unique_id
            &&& c.rent_payer == rent_payer
            &&& c.recipients@ == spec_recipients_of(recipients@)
            &&& c.unclaimed_amounts@ == spec_zeroed_unclaimed(recipients@.len() as int)
            &&& c.protocol_unclaimed == 0
            &&& c.last_activity == 0
            &&& spec_liabilities_clear(c)
        },
{
    match validate_recipient_inputs(recipients) {
        Ok(_) => {},
        Err(e) => {
            return Err(e);
        },
    }
    let n = recipients.len();
    if recipient_atas.len() < n {
        return Err(ErrorCode::InsufficientRemainingAccounts);
    }
    match validate_recipient_atas(recipients, recipient_atas, &mint) {
        Ok(_) => {},
        Err(e) => {
            return Err(e);
        },
    }
    let mut table: Vec<Recipient> = Vec::new();
    let mut ledger: Vec<UnclaimedAmount> = Vec::new();
    let mut i: usize = 0;
    while i < n
        invariant
            0 <= i <= n,
            n == recipients@.len(),
            table@.len() == i,
            ledger@.len() == i,
            forall|k: int|
                0 <= k < i ==> table@[k] == (Recipient {
                    address: recipients@[k].address,
                    percentage_bps: recipients@[k].percentage_bps,
                }),
            forall|k: int|
                0 <= k < i ==> ledger@[k] == (UnclaimedAmount {
                    recipient: Address { hi: 0, lo: 0 },
                    amount: 0,
                    timestamp: 0,
                }),
        decreases n - i,
    {
        let entry = recipients[i];
        table.push(Recipient { address: entry.address, percentage_bps: entry.percentage_bps });
        ledger.push(UnclaimedAmount { recipient: Address::zero(), amount: 0, timestamp: 0 });
        i = i + 1;
    }
    let config = SplitConfig {
        version: 1,
        authority,
        mint,
        vault,
        unique_id,
        rent_payer,
        recipients: table,
        unclaimed_amounts: ledger,
        protocol_unclaimed: 0,
        last_activity: 0,
    };
    proof {
        assert(config.recipients@ =~= spec_recipients_of(recipients@));
        assert(config.unclaimed_amounts@ =~= spec_zeroed_unclaimed(recipients@.len() as int));
        lemma_valid_inputs_make_wf(recipients@, config);
    }
    Ok(config)
}

/// The first reason an update call is rejected, or `None`.
pub open spec fn spec_update_error(
    c: SplitConfig,
    signer: Address,
    vault: AccountRef,
    inputs: Seq<RecipientInput>,
    atas: Seq<AccountRef>,
) -> Option<ErrorCode> {
    if signer != c.authority {
        Some(ErrorCode::Unauthorized)
    } else if vault.key != c.vault {
        Some(ErrorCode::InvalidVault)
    } else if vault.amount != 0 {
        Some(ErrorCode::VaultNotEmpty)
    } else if !spec_liabilities_clear(c) {
        Some(ErrorCode::UnclaimedNotEmpty)
    } else if spec_recipients_error(inputs) is Some {
        spec_recipients_error(inputs)
    } else if atas.len() < inputs.len() {
        Some(ErrorCode::InsufficientRemainingAccounts)
    } else {
        spec_atas_error_to(inputs, atas, c.mint, inputs.len() as int)
    }
}

/// Replaces a split's recipient table.
///
/// Only the split authority may call, and only while the vault is empty and
/// no liability is outstanding: replacing an in-flight ledger would corrupt
/// accounting. The new table is validated exactly as at create; on success
/// it fully replaces the old one and the liability ledger is reset to zero.
/// Vault, mint, authority and rent payer are untouched.
#[verifier::loop_isolation(false)]
pub fn update_split_config(
    config: &mut SplitConfig,
    signer: Address,
    vault: &AccountRef,
    new_recipients: &Vec<RecipientInput>,
    recipient_atas: &Vec<AccountRef>,
) -> (r: Result<(), ErrorCode>)
    ensures
        r matches Err(e) ==> {
            &&& spec_update_error(*old(config), signer, *vault, new_recipients@, recipient_atas@)
                == Some(e)
            &&& *final(config) == *old(config)
        },
        spec_update_error(*old(config), signer, *vault, new_recipients@, recipient_atas@)
            matches Some(e) ==> r == Err::<(), _>(e),
        r is Ok ==> {
            &&& spec_update_error(*old(config), signer, *vault, new_recipients@, recipient_atas@)
                is None
            &&& final(config).recipients@ == spec_recipients_of(new_recipients@)
            &&& final(config).unclaimed_amounts@ == spec_zeroed_unclaimed(
                new_recipients@.len() as int,
            )
            &&& final(config).protocol_unclaimed == 0
            &&& spec_liabilities_clear(*final(config))
            &&& final(config).wf()
            &&& final(config).version == old(config).version
            &&& final(config).authority == old(config).authority
            &&& final(config).mint == old(config).mint
            &&& final(config).vault == old(config).vault
            &&& final(config).unique_id == old(config).unique_id
            &&& final(config).rent_payer == old(config).rent_payer
            &&& final(config).last_activity == old(config).last_activity
        },
{
    if !(signer == config.authority) {
        return Err(ErrorCode::Unauthorized);
    }
    if !(vault.key == config.vault) {
        return Err(ErrorCode::InvalidVault);
    }
    if vault.amount != 0 {
        return Err(ErrorCode::VaultNotEmpty);
    }
    let count = config.unclaimed_amounts.len();
    let mut i: usize = 0;
    while i < count
        invariant
            0 <= i <= count,
            count == config.unclaimed_amounts@.len(),
            forall|k: int| 0 <= k < i ==> (#[trigger] config.unclaimed_amounts@[k]).amount == 0,
        decreases count - i,
    {
        if config.unclaimed_amounts[i].amount != 0 {
            return Err(ErrorCode::UnclaimedNotEmpty);
        }
        i = i + 1;
    }
    if config.protocol_unclaimed != 0 {
        return Err(ErrorCode::UnclaimedNotEmpty);
    }
    match validate_recipient_inputs(new_recipients) {
        Ok(_) => {},
        Err(e) => {
            return Err(e);
        },
    }
    let n = new_recipients.len();
    if recipient_atas.len() < n {
        return Err(ErrorCode::InsufficientRemainingAccounts);
    }
    match validate_recipient_atas(new_recipients, recipient_atas, &config.mint) {
        Ok(_) => {},
        Err(e) => {
            return Err(e);
        },
    }
    let mut table: Vec<Recipient> = Vec::new();
    let mut ledger: Vec<UnclaimedAmount> = Vec::new();
    let mut i: usize = 0;
    while i < n
        invariant
            0 <= i <= n,
            n == new_recipients@.len(),
            table@.len() == i,
            ledger@.len() == i,
            forall|k: int|
                0 <= k < i ==> table@[k] == (Recipient {
                    address: new_recipients@[k].address,
                    percentage_bps: new_recipients@[k].percentage_bps,
                }),
            forall|k: int|
                0 <= k < i ==> ledger@[k] == (UnclaimedAmount {
                    recipient: Address { hi: 0, lo: 0 },
                    amount: 0,
                    timestamp: 0,
                }),
        decreases n - i,
    {
        let entry = new_recipients[i];
        table.push(Recipient { address: entry.address, percentage_bps: entry.percentage_bps });
        ledger.push(UnclaimedAmount { recipient: Address::zero(), amount: 0, timestamp: 0 });
        i = i + 1;
    }
    config.recipients = table;
    config.unclaimed_amounts = ledger;
    proof {
        assert(config.recipients@ =~= spec_recipients_of(new_recipients@));
        assert(config.unclaimed_amounts@ =~= spec_zeroed_unclaimed(new_recipients@.len() as int));
        lemma_valid_inputs_make_wf(new_recipients@, *config);
    }
    Ok(())
}

/// The first reason a close call is rejected, or `None`.
pub open spec fn spec_close_error(
    c: SplitConfig,
    signer: Address,
    vault: AccountRef,
    rent_destination: Address,
) -> Option<ErrorCode> {
    if signer != c.authority {
        Some(ErrorCode::Unauthorized)
    } else if vault.key != c.vault {
        Some(ErrorCode::InvalidVault)
    } else if vault.amount != 0 {
        Some(ErrorCode::VaultNotEmpty)
    } else if rent_destination != c.rent_payer {
        Some(ErrorCode::InvalidRentDestination)
    } else if !spec_liabilities_clear(c) {
        Some(ErrorCode::UnclaimedNotEmpty)
    } else {
        None
    }
}

/// Closes a split configuration.
///
/// Only the split authority may call; the vault balance and every liability
/// must be zero, and the supplied rent destination must be the recorded
/// `rent_payer`. On success the record is to be destroyed and both storage
/// deposits returned to the returned address — always the recorded
/// `rent_payer`, which need not be the closing signer.
#[verifier::loop_isolation(false)]
pub fn close_split_config(
    config: &SplitConfig,
    signer: Address,
    vault: &AccountRef,
    rent_destination: Address,
) -> (r: Result<Address, ErrorCode>)
    ensures
        r == match spec_close_error(*config, signer, *vault, rent_destination) {
            Some(e) => Result::<Address, ErrorCode>::Err(e),
            None => Result::<Address, ErrorCode>::Ok(config.rent_payer),
        },
        r is Ok ==> vault.amount == 0 && spec_liabilities_clear(*config) && r == Ok::<
            Address,
            ErrorCode,
        >(config.rent_payer),
{
    if !(signer == config.authority) {
        return Err(ErrorCode::Unauthorized);
    }
    if !(vault.key == config.vault) {
        return Err(ErrorCode::InvalidVault);
    }
    if vault.amount != 0 {
        return Err(ErrorCode::VaultNotEmpty);
    }
    if !(rent_destination == config.rent_payer) {
        return Err(ErrorCode::InvalidRentDestination);
    }
    let count = config.unclaimed_amounts.len();
    let mut i: usize = 0;
    while i < count
        invariant
            0 <= i <= count,
            count == config.unclaimed_amounts@.len(),
            forall|k: int| 0 <= k < i ==> (#[trigger] config.unclaimed_amounts@[k]).amount == 0,
        decreases count - i,
    {
        if config.unclaimed_amounts[i].amount != 0 {
            return Err(ErrorCode::UnclaimedNotEmpty);
        }
        i = i + 1;
    }
    if config.protocol_unclaimed != 0 {
        return Err(ErrorCode::UnclaimedNotEmpty);
    }
    Ok(config.rent_payer)
}

} // verus!
