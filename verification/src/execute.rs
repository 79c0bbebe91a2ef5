//! The distribution engine.
//!
//! One call settles whatever balance is currently pooled: it computes each
//! recipient's floor-rounded share of the available balance, turns shares
//! whose receiving account is missing or frozen into liabilities, routes the
//! remainder (the designed 1% plus all rounding dust) to the protocol, and
//! runs a self-healing pass that retires previously recorded liabilities
//! whose receiving account has become usable.
//!
//! The engine decides; the host acts. It returns the ordered [`Transfer`]s
//! the host must perform out of the vault and commits the updated liability
//! ledger to the record. The host guarantees the call is atomic: on any
//! error nothing — neither transfers nor the record — takes effect, and the
//! engine accordingly leaves the record untouched on every error path.

use vstd::prelude::*;

use crate::accounts::{spec_usable, usable, AccountRef};
use crate::constants::REQUIRED_SPLIT_TOTAL;
use crate::errors::ErrorCode;
use crate::state::{Address, ProtocolConfig, Recipient, SplitConfig, UnclaimedAmount};
use crate::utils::{
    calculate_recipient_amount, lemma_share_of_le_total, lemma_share_of_monotone_bps,
    lemma_share_of_nonneg, lemma_share_of_superadd, lemma_sum_bps_to_monotone, share_of,
    sum_bps_to,
};

verus! {

/// One token movement out of the vault that the host must perform.
#[derive(Clone, Copy, PartialEq, Eq, Structural, Debug)]
pub struct Transfer {
    /// The receiving token account's address.
    pub to: Address,
    /// The amount to move.
    pub amount: u64,
}

/// Summary of one distribution call.
#[derive(Clone, Copy, PartialEq, Eq, Structural, Debug)]
pub struct SplitExecuted {
    /// The vault the call settled.
    pub vault: Address,
    /// The pooled balance at the start of the call.
    pub total_amount: u64,
    /// Total paid out to recipients from the newly available balance.
    pub recipients_distributed: u64,
    /// Protocol fee actually transferred (zero when it accrued instead).
    pub protocol_fee: u64,
    /// Newly recorded recipient liabilities.
    pub held_as_unclaimed: u64,
    /// Previously recorded recipient liabilities retired by self-healing.
    pub unclaimed_cleared: u64,
    /// Protocol liability retired by self-healing.
    pub protocol_unclaimed_cleared: u64,
    /// Who triggered the call (attribution only; execution is
    /// permissionless).
    pub executor: Address,
    /// The time the call was made.
    pub timestamp: i64,
}

/// Total liability recorded in the first `n` ledger entries.
pub open spec fn sum_unclaimed_to(us: Seq<UnclaimedAmount>, n: int) -> int
    decreases n,
{
    if n <= 0 {
        0
    } else {
        sum_unclaimed_to(us, n - 1) + us[n - 1].amount
    }
}

/// Total liability recorded in the ledger.
pub open spec fn sum_unclaimed(us: Seq<UnclaimedAmount>) -> int {
    sum_unclaimed_to(us, us.len() as int)
}

/// The balance a call may distribute: the pooled balance minus every
/// recorded liability. Negative exactly when liabilities exceed the pooled
/// balance, which a correct accounting history never produces.
pub open spec fn spec_available(balance: u64, c: SplitConfig) -> int {
    balance - sum_unclaimed(c.unclaimed_amounts@) - c.protocol_unclaimed
}

/// Recipient `i`'s newly computed share of the available balance.
pub open spec fn spec_share_at(rs: Seq<Recipient>, avail: int, i: int) -> int {
    share_of(avail, rs[i].percentage_bps as int)
}

/// Whether recipient `i` is paid this call: a nonzero share and a usable
/// receiving account.
pub open spec fn spec_pays(rs: Seq<Recipient>, accounts: Seq<AccountRef>, avail: int, i: int) -> bool {
    spec_share_at(rs, avail, i) > 0 && spec_usable(&accounts[i])
}

/// Whether recipient `i` accrues a new liability this call: a nonzero share
/// but a missing or frozen receiving account.
pub open spec fn spec_accrues(
    rs: Seq<Recipient>,
    accounts: Seq<AccountRef>,
    avail: int,
    i: int,
) -> bool {
    spec_share_at(rs, avail, i) > 0 && !spec_usable(&accounts[i])
}

/// The first reason a transfer to this account on behalf of `owner` under
/// `mint` must abort the call, or `None`: the account must exist, sit at
/// the canonical derived address, be owned by a recognized token program,
/// parse as a token account, and record the expected owner and mint —
/// anything else would misdirect funds.
pub open spec fn spec_send_error(a: AccountRef, owner: Address, mint: Address) -> Option<
    ErrorCode,
> {
    if !a.exists {
        Some(ErrorCode::RecipientATADoesNotExist)
    } else if !a.canonical {
        Some(ErrorCode::RecipientATAInvalid)
    } else if !a.token_program_owned {
        Some(ErrorCode::InvalidTokenProgram)
    } else if !a.is_token_account {
        Some(ErrorCode::RecipientATAInvalid)
    } else if a.owner != owner {
        Some(ErrorCode::RecipientATAWrongOwner)
    } else if a.mint != mint {
        Some(ErrorCode::RecipientATAWrongMint)
    } else {
        None
    }
}

/// The first aborting validation failure among the first `n` paid
/// recipients, or `None`.
pub open spec fn spec_dist_error_to(
    rs: Seq<Recipient>,
    accounts: Seq<AccountRef>,
    mint: Address,
    avail: int,
    n: int,
) -> Option<ErrorCode>
    decreases n,
{
    if n <= 0 {
        None
    } else if spec_dist_error_to(rs, accounts, mint, avail, n - 1) is Some {
        spec_dist_error_to(rs, accounts, mint, avail, n - 1)
    } else if spec_pays(rs, accounts, avail, n - 1) {
        spec_send_error(accounts[n - 1], rs[n - 1].address, mint)
    } else {
        None
    }
}

/// Sum of the shares paid to the first `n` recipients.
pub open spec fn spec_distributed_to(
    rs: Seq<Recipient>,
    accounts: Seq<AccountRef>,
    avail: int,
    n: int,
) -> int
    decreases n,
{
    if n <= 0 {
        0
    } else {
        spec_distributed_to(rs, accounts, avail, n - 1) + if spec_pays(rs, accounts, avail, n - 1) {
            spec_share_at(rs, avail, n - 1)
        } else {
            0
        }
    }
}

/// Sum of the shares newly held as liabilities for the first `n` recipients.
pub open spec fn spec_held_to(
    rs: Seq<Recipient>,
    accounts: Seq<AccountRef>,
    avail: int,
    n: int,
) -> int
    decreases n,
{
    if n <= 0 {
        0
    } else {
        spec_held_to(rs, accounts, avail, n - 1) + if spec_accrues(rs, accounts, avail, n - 1) {
            spec_share_at(rs, avail, n - 1)
        } else {
            0
        }
    }
}

/// The distribution-phase transfers for the first `n` recipients, in table
/// order.
pub open spec fn spec_dist_transfers_to(
    rs: Seq<Recipient>,
    accounts: Seq<AccountRef>,
    avail: int,
    n: int,
) -> Seq<Transfer>
    decreases n,
{
    if n <= 0 {
        Seq::empty()
    } else if spec_pays(rs, accounts, avail, n - 1) {
        spec_dist_transfers_to(rs, accounts, avail, n - 1).push(
            Transfer {
                to: accounts[n - 1].key,
                amount: spec_share_at(rs, avail, n - 1) as u64,
            },
        )
    } else {
        spec_dist_transfers_to(rs, accounts, avail, n - 1)
    }
}

/// Recipient `i`'s liability after the distribution phase: the old amount,
/// plus the new share where it accrued.
pub open spec fn spec_post_dist_amount(
    us: Seq<UnclaimedAmount>,
    rs: Seq<Recipient>,
    accounts: Seq<AccountRef>,
    avail: int,
    i: int,
) -> int {
    us[i].amount + if spec_accrues(rs, accounts, avail, i) {
        spec_share_at(rs, avail, i)
    } else {
        0
    }
}

/// Whether recipient `i`'s liability is retired this call: it is nonzero
/// after the distribution phase and the receiving account is usable.
pub open spec fn spec_heals(
    us: Seq<UnclaimedAmount>,
    rs: Seq<Recipient>,
    accounts: Seq<AccountRef>,
    avail: int,
    i: int,
) -> bool {
    spec_usable(&accounts[i]) && spec_post_dist_amount(us, rs, accounts, avail, i) > 0
}

/// The first aborting validation failure among the first `n` healed
/// recipients, or `None`.
pub open spec fn spec_heal_error_to(
    us: Seq<UnclaimedAmount>,
    rs: Seq<Recipient>,
    accounts: Seq<AccountRef>,
    mint: Address,
    avail: int,
    n: int,
) -> Option<ErrorCode>
    decreases n,
{
    if n <= 0 {
        None
    } else if spec_heal_error_to(us, rs, accounts, mint, avail, n - 1) is Some {
        spec_heal_error_to(us, rs, accounts, mint, avail, n - 1)
    } else if spec_heals(us, rs, accounts, avail, n - 1) {
        spec_send_error(accounts[n - 1], rs[n - 1].address, mint)
    } else {
        None
    }
}

/// Total liability retired for the first `n` recipients.
pub open spec fn spec_cleared_to(
    us: Seq<UnclaimedAmount>,
    rs: Seq<Recipient>,
    accounts: Seq<AccountRef>,
    avail: int,
    n: int,
) -> int
    decreases n,
{
    if n <= 0 {
        0
    } else {
        spec_cleared_to(us, rs, accounts, avail, n - 1) + if spec_heals(
            us,
            rs,
            accounts,
            avail,
            n - 1,
        ) {
            spec_post_dist_amount(us, rs, accounts, avail, n - 1)
        } else {
            0
        }
    }
}

/// The self-healing transfers for the first `n` recipients, in table order.
pub open spec fn spec_heal_transfers_to(
    us: Seq<UnclaimedAmount>,
    rs: Seq<Recipient>,
    accounts: Seq<AccountRef>,
    avail: int,
    n: int,
) -> Seq<Transfer>
    decreases n,
{
    if n <= 0 {
        Seq::empty()
    } else if spec_heals(us, rs, accounts, avail, n - 1) {
        spec_heal_transfers_to(us, rs, accounts, avail, n - 1).push(
            Transfer {
                to: accounts[n - 1].key,
                amount: spec_post_dist_amount(us, rs, accounts, avail, n - 1) as u64,
            },
        )
    } else {
        spec_heal_transfers_to(us, rs, accounts, avail, n - 1)
    }
}

/// Recipient `i`'s ledger entry after the distribution phase: on accrual
/// the amount grows by the new share and the recipient stamp and time are
/// refreshed; otherwise the entry is untouched.
pub open spec fn spec_post_dist_entry(
    us: Seq<UnclaimedAmount>,
    rs: Seq<Recipient>,
    accounts: Seq<AccountRef>,
    avail: int,
    now: i64,
    i: int,
) -> UnclaimedAmount {
    UnclaimedAmount {
        recipient: if spec_accrues(rs, accounts, avail, i) {
            rs[i].address
        } else {
            us[i].recipient
        },
        amount: spec_post_dist_amount(us, rs, accounts, avail, i) as u64,
        timestamp: if spec_accrues(rs, accounts, avail, i) {
            now
        } else {
            us[i].timestamp
        },
    }
}

/// Recipient `i`'s ledger entry after the whole call: the recipient stamp
/// and time are refreshed on accrual, and the amount is zero exactly when
/// the receiving account was usable (self-healing retires liabilities in
/// full, never partially).
pub open spec fn spec_final_unclaimed_at(
    us: Seq<UnclaimedAmount>,
    rs: Seq<Recipient>,
    accounts: Seq<AccountRef>,
    avail: int,
    now: i64,
    i: int,
) -> UnclaimedAmount {
    UnclaimedAmount {
        recipient: if spec_accrues(rs, accounts, avail, i) {
            rs[i].address
        } else {
            us[i].recipient
        },
        amount: if spec_usable(&accounts[i]) {
            0
        } else {
            spec_post_dist_amount(us, rs, accounts, avail, i) as u64
        },
        timestamp: if spec_accrues(rs, accounts, avail, i) {
            now
        } else {
            us[i].timestamp
        },
    }
}

/// The first reason the protocol-fee phase aborts the call, or `None`. A fee
/// account that is missing or frozen is no error — the fee accrues — but
/// one at the wrong address, not writable, or (when present) not a token
/// account of the fee wallet under the split's mint is.
pub open spec fn spec_fee_error(
    pa: AccountRef,
    fee_wallet: Address,
    mint: Address,
    fee: int,
) -> Option<ErrorCode> {
    if fee <= 0 {
        None
    } else if !pa.canonical {
        Some(ErrorCode::InvalidProtocolFeeRecipient)
    } else if !pa.is_writable {
        Some(ErrorCode::InvalidProtocolFeeRecipient)
    } else if !spec_usable(&pa) {
        None
    } else if !pa.token_program_owned || !pa.is_token_account || pa.owner != fee_wallet
        || pa.mint != mint {
        Some(ErrorCode::InvalidProtocolFeeRecipient)
    } else {
        None
    }
}

/// Whether the protocol liability is retired this call. The healing pass is
/// deliberately silent: an account that exists but fails owner or mint
/// validation here neither heals nor errors.
pub open spec fn spec_protocol_heal_ok(pa: AccountRef, fee_wallet: Address, mint: Address) -> bool {
    &&& spec_usable(&pa)
    &&& pa.token_program_owned
    &&& pa.is_token_account
    &&& pa.owner == fee_wallet
    &&& pa.mint == mint
}

/// The first reason a distribution call is rejected, or `None`: the vault
/// identity, the account count (one per recipient plus the trailing
/// protocol-fee account), liability-sum overflow, liabilities exceeding the
/// pooled balance, then the three phases in order.
pub open spec fn spec_execute_error(
    c: SplitConfig,
    vault: AccountRef,
    fee_wallet: Address,
    accounts: Seq<AccountRef>,
) -> Option<ErrorCode> {
    let n = c.recipients@.len() as int;
    let avail = spec_available(vault.amount, c);
    let fee = avail - spec_distributed_to(c.recipients@, accounts, avail, n) - spec_held_to(
        c.recipients@,
        accounts,
        avail,
        n,
    );
    if vault.key != c.vault {
        Some(ErrorCode::InvalidVault)
    } else if accounts.len() <= n {
        Some(ErrorCode::InsufficientRemainingAccounts)
    } else if sum_unclaimed(c.unclaimed_amounts@) > u64::MAX {
        Some(ErrorCode::MathOverflow)
    } else if avail < 0 {
        Some(ErrorCode::MathUnderflow)
    } else if spec_dist_error_to(c.recipients@, accounts, c.mint, avail, n) is Some {
        spec_dist_error_to(c.recipients@, accounts, c.mint, avail, n)
    } else if spec_fee_error(accounts[accounts.len() - 1], fee_wallet, c.mint, fee) is Some {
        spec_fee_error(accounts[accounts.len() - 1], fee_wallet, c.mint, fee)
    } else if spec_heal_error_to(
        c.unclaimed_amounts@,
        c.recipients@,
        accounts,
        c.mint,
        avail,
        n,
    ) is Some {
        spec_heal_error_to(c.unclaimed_amounts@, c.recipients@, accounts, c.mint, avail, n)
    } else {
        None
    }
}

proof fn lemma_dist_error_first(
    rs: Seq<Recipient>,
    accounts: Seq<AccountRef>,
    mint: Address,
    avail: int,
    i: int,
    m: int,
)
    requires
        0 <= i < m,
        spec_dist_error_to(rs, accounts, mint, avail, i) is None,
        spec_pays(rs, accounts, avail, i),
        spec_send_error(accounts[i], rs[i].address, mint) is Some,
    ensures
        spec_dist_error_to(rs, accounts, mint, avail, m) == spec_send_error(
            accounts[i],
            rs[i].address,
            mint,
        ),
    decreases m,
{
    if m > i + 1 {
        lemma_dist_error_first(rs, accounts, mint, avail, i, m - 1);
    }
}

proof fn lemma_heal_error_first(
    us: Seq<UnclaimedAmount>,
    rs: Seq<Recipient>,
    accounts: Seq<AccountRef>,
    mint: Address,
    avail: int,
    i: int,
    m: int,
)
    requires
        0 <= i < m,
        spec_heal_error_to(us, rs, accounts, mint, avail, i) is None,
        spec_heals(us, rs, accounts, avail, i),
        spec_send_error(accounts[i], rs[i].address, mint) is Some,
    ensures
        spec_heal_error_to(us, rs, accounts, mint, avail, m) == spec_send_error(
            accounts[i],
            rs[i].address,
            mint,
        ),
    decreases m,
{
    if m > i + 1 {
        lemma_heal_error_first(us, rs, accounts, mint, avail, i, m - 1);
    }
}

/// Ledger sums only grow as more entries are taken.
pub proof fn lemma_sum_unclaimed_to_monotone(us: Seq<UnclaimedAmount>, i: int, j: int)
    requires
        0 <= i <= j,
    ensures
        sum_unclaimed_to(us, i) <= sum_unclaimed_to(us, j),
    decreases j - i,
{
    if i < j {
        lemma_sum_unclaimed_to_monotone(us, i, j - 1);
    }
}

/// No single ledger entry exceeds the ledger sum.
pub proof fn lemma_unclaimed_elem_le_sum(us: Seq<UnclaimedAmount>, k: int, n: int)
    requires
        0 <= k < n,
    ensures
        us[k].amount <= sum_unclaimed_to(us, n),
{
    lemma_sum_unclaimed_to_monotone(us, 0, k);
    lemma_sum_unclaimed_to_monotone(us, k + 1, n);
}

/// What the distribution phase pays plus what it newly holds never exceeds
/// the floor-rounded share of the basis points processed so far — and so,
/// over a full table summing to 9900 bps, never exceeds the available
/// balance: floor rounding makes the split sum deficient, never excessive.
pub proof fn lemma_dist_sums_bound(
    rs: Seq<Recipient>,
    accounts: Seq<AccountRef>,
    avail: int,
    n: int,
)
    requires
        avail >= 0,
        n >= 0,
    ensures
        0 <= spec_distributed_to(rs, accounts, avail, n),
        0 <= spec_held_to(rs, accounts, avail, n),
        spec_distributed_to(rs, accounts, avail, n) + spec_held_to(rs, accounts, avail, n)
            <= share_of(avail, sum_bps_to(rs, n)),
    decreases n,
{
    if n > 0 {
        lemma_dist_sums_bound(rs, accounts, avail, n - 1);
        lemma_sum_bps_to_monotone(rs, 0, n - 1);
        lemma_share_of_nonneg(avail, rs[n - 1].percentage_bps as int);
        lemma_share_of_superadd(avail, sum_bps_to(rs, n - 1), rs[n - 1].percentage_bps as int);
    } else {
        lemma_share_of_nonneg(avail, sum_bps_to(rs, 0));
    }
}

/// Self-healing never retires more than was recorded: liabilities are paid
/// out in full from what the ledger already protected.
pub proof fn lemma_cleared_bound(
    us: Seq<UnclaimedAmount>,
    rs: Seq<Recipient>,
    accounts: Seq<AccountRef>,
    avail: int,
    n: int,
)
    requires
        n >= 0,
    ensures
        0 <= spec_cleared_to(us, rs, accounts, avail, n) <= sum_unclaimed_to(us, n),
    decreases n,
{
    if n > 0 {
        lemma_cleared_bound(us, rs, accounts, avail, n - 1);
    }
}

/// The protocol fee of a call: whatever the distribution phase neither paid
/// out nor newly held — the designed 1% plus all rounding dust.
pub open spec fn spec_fee_of(c: SplitConfig, vault: AccountRef, accounts: Seq<AccountRef>) -> int {
    let avail = spec_available(vault.amount, c);
    let n = c.recipients@.len() as int;
    avail - spec_distributed_to(c.recipients@, accounts, avail, n) - spec_held_to(
        c.recipients@,
        accounts,
        avail,
        n,
    )
}

/// The protocol liability after a successful call: the old liability plus
/// an accrued fee, zeroed where self-healing retires it.
pub open spec fn spec_protocol_after(
    c: SplitConfig,
    vault: AccountRef,
    fee_wallet: Address,
    accounts: Seq<AccountRef>,
) -> int {
    let pa = accounts[accounts.len() - 1];
    let fee = spec_fee_of(c, vault, accounts);
    let p1 = c.protocol_unclaimed + if fee > 0 && !spec_usable(&pa) {
        fee
    } else {
        0
    };
    if p1 > 0 && spec_protocol_heal_ok(pa, fee_wallet, c.mint) {
        0
    } else {
        p1
    }
}

/// The exact transfer list of a successful call, in the order the host must
/// perform it: distribution payouts, the protocol fee, retired recipient
/// liabilities, the retired protocol liability.
pub open spec fn spec_transfers_of(
    c: SplitConfig,
    vault: AccountRef,
    fee_wallet: Address,
    accounts: Seq<AccountRef>,
) -> Seq<Transfer> {
    let rs = c.recipients@;
    let us = c.unclaimed_amounts@;
    let avail = spec_available(vault.amount, c);
    let n = rs.len() as int;
    let pa = accounts[accounts.len() - 1];
    let fee = spec_fee_of(c, vault, accounts);
    let p1 = c.protocol_unclaimed + if fee > 0 && !spec_usable(&pa) {
        fee
    } else {
        0
    };
    spec_dist_transfers_to(rs, accounts, avail, n) + (if fee > 0 && spec_usable(&pa) {
        seq![(Transfer { to: pa.key, amount: fee as u64 })]
    } else {
        Seq::empty()
    }) + spec_heal_transfers_to(us, rs, accounts, avail, n) + (if p1 > 0 && spec_protocol_heal_ok(
        pa,
        fee_wallet,
        c.mint,
    ) {
        seq![(Transfer { to: pa.key, amount: p1 as u64 })]
    } else {
        Seq::empty()
    })
}

/// The total a successful call moves out of the vault: payouts, the
/// transferred fee, and both kinds of retired liability.
pub open spec fn spec_outflow(
    c: SplitConfig,
    vault: AccountRef,
    fee_wallet: Address,
    accounts: Seq<AccountRef>,
) -> int {
    let rs = c.recipients@;
    let us = c.unclaimed_amounts@;
    let avail = spec_available(vault.amount, c);
    let n = rs.len() as int;
    let pa = accounts[accounts.len() - 1];
    let fee = spec_fee_of(c, vault, accounts);
    let p1 = c.protocol_unclaimed + if fee > 0 && !spec_usable(&pa) {
        fee
    } else {
        0
    };
    spec_distributed_to(rs, accounts, avail, n) + (if fee > 0 && spec_usable(&pa) {
        fee
    } else {
        0
    }) + spec_cleared_to(us, rs, accounts, avail, n) + (if p1 > 0 && spec_protocol_heal_ok(
        pa,
        fee_wallet,
        c.mint,
    ) {
        p1
    } else {
        0
    })
}

/// Validates a receiving account and produces the transfer the host must
/// perform: `amount` to the account's address. Any mismatch aborts rather
/// than misdirecting funds.
pub fn validate_and_send_to_recipient(
    ata: &AccountRef,
    recipient: &Recipient,
    amount: u64,
    mint: &Address,
) -> (r: Result<Transfer, ErrorCode>)
    ensures
        r == match spec_send_error(*ata, recipient.address, *mint) {
            Some(e) => Result::<Transfer, ErrorCode>::Err(e),
            None => Result::<Transfer, ErrorCode>::Ok(Transfer { to: ata.key, amount }),
        },
{
    if !ata.exists {
        return Err(ErrorCode::RecipientATADoesNotExist);
    }
    if !ata.canonical {
        return Err(ErrorCode::RecipientATAInvalid);
    }
    if !ata.token_program_owned {
        return Err(ErrorCode::InvalidTokenProgram);
    }
    if !ata.is_token_account {
        return Err(ErrorCode::RecipientATAInvalid);
    }
    if ata.owner != recipient.address {
        return Err(ErrorCode::RecipientATAWrongOwner);
    }
    if ata.mint != *mint {
        return Err(ErrorCode::RecipientATAWrongMint);
    }
    Ok(Transfer { to: ata.key, amount })
}

/// Executes a payment split with self-healing liability recovery.
///
/// Callable by anyone; `executor` carries no authorization weight. Expects
/// one receiving-account observation per active recipient, in table order,
/// followed by the protocol-fee account as the last element of `accounts`.
///
/// On success the returned transfers, in order, are exactly the payouts the
/// host must perform, the event summarises the call, and the record's
/// liability ledger is updated in place. Distribution is dust-conservative:
/// every unit of the available balance is either paid to a recipient, newly
/// held as a liability, or routed to the protocol (transferred or accrued).
/// On any error the record is left untouched, matching the host's
/// all-or-nothing rollback of the transfers.
#[verifier::rlimit(100)]
#[verifier::loop_isolation(false)]
pub fn execute_split(
    config: &mut SplitConfig,
    vault: &AccountRef,
    protocol: &ProtocolConfig,
    executor: Address,
    accounts: &Vec<AccountRef>,
    now: i64,
) -> (r: Result<(Vec<Transfer>, SplitExecuted), ErrorCode>)
    requires
        old(config).wf(),
    ensures
        r matches Err(e) ==> {
            &&& spec_execute_error(*old(config), *vault, protocol.fee_wallet, accounts@) == Some(e)
            &&& *final(config) == *old(config)
        },
        spec_execute_error(*old(config), *vault, protocol.fee_wallet, accounts@) matches Some(e)
            ==> r == Err::<(Vec<Transfer>, SplitExecuted), _>(e),
        r matches Ok(out) ==> ({
            let rs = old(config).recipients@;
            let us = old(config).unclaimed_amounts@;
            let n = rs.len() as int;
            let avail = spec_available(vault.amount, *old(config));
            let pa = accounts@[accounts@.len() - 1];
            let dist = spec_distributed_to(rs, accounts@, avail, n);
            let held = spec_held_to(rs, accounts@, avail, n);
            let fee = avail - dist - held;
            let cleared = spec_cleared_to(us, rs, accounts@, avail, n);
            let fee_paid = fee > 0 && spec_usable(&pa);
            let fee_accrued = fee > 0 && !spec_usable(&pa);
            let p1 = old(config).protocol_unclaimed + if fee_accrued {
                fee
            } else {
                0
            };
            let p_healed = p1 > 0 && spec_protocol_heal_ok(
                pa,
                protocol.fee_wallet,
                old(config).mint,
            );
            &&& spec_execute_error(*old(config), *vault, protocol.fee_wallet, accounts@) is None
            &&& avail >= 0
            &&& dist + held + fee == avail
            &&& 0 <= fee
            &&& final(config).version == old(config).version
            &&& final(config).authority == old(config).authority
            &&& final(config).mint == old(config).mint
            &&& final(config).vault == old(config).vault
            &&& final(config).unique_id == old(config).unique_id
            &&& final(config).rent_payer == old(config).rent_payer
            &&& final(config).recipients == old(config).recipients
            &&& final(config).wf()
            &&& final(config).unclaimed_amounts@.len() == n
            &&& forall|i: int|
                0 <= i < n ==> final(config).unclaimed_amounts@[i] == spec_final_unclaimed_at(
                    us,
                    rs,
                    accounts@,
                    avail,
                    now,
                    i,
                )
            &&& final(config).protocol_unclaimed == if p_healed {
                0
            } else {
                p1
            }
            &&& final(config).last_activity == now
            &&& out.0@ == spec_transfers_of(*old(config), *vault, protocol.fee_wallet, accounts@)
            &&& out.1 == (SplitExecuted {
                vault: vault.key,
                total_amount: vault.amount,
                recipients_distributed: dist as u64,
                protocol_fee: if fee_paid {
                    fee as u64
                } else {
                    0
                },
                held_as_unclaimed: held as u64,
                unclaimed_cleared: cleared as u64,
                protocol_unclaimed_cleared: if p_healed {
                    p1 as u64
                } else {
                    0
                },
                executor,
                timestamp: now,
            })
        }),
{
    let ghost rs = config.recipients@;
    let ghost us = config.unclaimed_amounts@;
    let n = config.recipients.len();

    if !(vault.key == config.vault) {
        return Err(ErrorCode::InvalidVault);
    }
    if accounts.len() <= n {
        return Err(ErrorCode::InsufficientRemainingAccounts);
    }

    // Snapshot phase: total the recorded liabilities.
    let mut total_unclaimed: u64 = 0;
    let mut i: usize = 0;
    while i < n
        invariant
            0 <= i <= n,
            total_unclaimed == sum_unclaimed_to(us, i as int),
        decreases n - i,
    {
        let amt = config.unclaimed_amounts[i].amount;
        if total_unclaimed > u64::MAX - amt {
            proof {
                lemma_sum_unclaimed_to_monotone(us, i as int + 1, n as int);
            }
            return Err(ErrorCode::MathOverflow);
        }
        total_unclaimed = total_unclaimed + amt;
        i = i + 1;
    }
    proof {
        lemma_sum_unclaimed_to_monotone(us, 0, n as int);
    }

    // Available-balance computation: every recorded liability is protected.
    let balance = vault.amount;
    if balance < total_unclaimed {
        return Err(ErrorCode::MathUnderflow);
    }
    if balance - total_unclaimed < config.protocol_unclaimed {
        return Err(ErrorCode::MathUnderflow);
    }
    let avail: u64 = balance - total_unclaimed - config.protocol_unclaimed;

    // Work on a local copy of the ledger; the record is written only at the
    // commit point, so every error path leaves it untouched.
    let mut ledger: Vec<UnclaimedAmount> = Vec::new();
    let mut i: usize = 0;
    while i < n
        invariant
            0 <= i <= n,
            ledger@.len() == i,
            forall|k: int| 0 <= k < i ==> ledger@[k] == us[k],
        decreases n - i,
    {
        let entry = config.unclaimed_amounts[i];
        ledger.push(entry);
        i = i + 1;
    }

    let mut transfers: Vec<Transfer> = Vec::new();
    let mut distributed: u64 = 0;
    let mut held: u64 = 0;

    // Per-recipient distribution.
    let mut i: usize = 0;
    while i < n
        invariant
            0 <= i <= n,
            ledger@.len() == n,
            spec_dist_error_to(rs, accounts@, config.mint, avail as int, i as int) is None,
            distributed == spec_distributed_to(rs, accounts@, avail as int, i as int),
            held == spec_held_to(rs, accounts@, avail as int, i as int),
            distributed + held <= share_of(avail as int, sum_bps_to(rs, i as int)),
            transfers@ == spec_dist_transfers_to(rs, accounts@, avail as int, i as int),
            forall|k: int|
                0 <= k < i ==> ledger@[k] == spec_post_dist_entry(
                    us,
                    rs,
                    accounts@,
                    avail as int,
                    now,
                    k,
                ),
            forall|k: int| i <= k < n ==> ledger@[k] == us[k],
        decreases n - i,
    {
        let recipient = config.recipients[i];
        proof {
            lemma_sum_bps_to_monotone(rs, 0, i as int);
            lemma_sum_bps_to_monotone(rs, i as int + 1, n as int);
            lemma_share_of_le_total(avail as int, recipient.percentage_bps as int);
            lemma_share_of_nonneg(avail as int, recipient.percentage_bps as int);
        }
        let amount = match calculate_recipient_amount(avail, recipient.percentage_bps) {
            Some(a) => a,
            None => {
                return Err(ErrorCode::MathOverflow);
            },
        };
        if amount == 0 {
            proof {
                lemma_share_of_monotone_bps(
                    avail as int,
                    sum_bps_to(rs, i as int),
                    sum_bps_to(rs, i as int + 1),
                );
            }
            i = i + 1;
            continue ;
        }
        let ata = accounts[i];
        if !usable(&ata) {
            // Hold as unclaimed: accrue, never overwrite.
            proof {
                lemma_unclaimed_elem_le_sum(us, i as int, n as int);
            }
            let entry = ledger[i];
            ledger[i] =
            UnclaimedAmount {
                recipient: recipient.address,
                amount: entry.amount + amount,
                timestamp: now,
            };
            proof {
                lemma_share_of_superadd(
                    avail as int,
                    sum_bps_to(rs, i as int),
                    recipient.percentage_bps as int,
                );
                lemma_share_of_monotone_bps(
                    avail as int,
                    sum_bps_to(rs, i as int + 1),
                    REQUIRED_SPLIT_TOTAL as int,
                );
            }
            held = held + amount;
        } else {
            match validate_and_send_to_recipient(&ata, &recipient, amount, &config.mint) {
                Ok(t) => {
                    proof {
                        lemma_share_of_superadd(
                            avail as int,
                            sum_bps_to(rs, i as int),
                            recipient.percentage_bps as int,
                        );
                        lemma_share_of_monotone_bps(
                            avail as int,
                            sum_bps_to(rs, i as int + 1),
                            REQUIRED_SPLIT_TOTAL as int,
                        );
                    }
                    transfers.push(t);
                    distributed = distributed + amount;
                },
                Err(e) => {
                    proof {
                        lemma_dist_error_first(
                            rs,
                            accounts@,
                            config.mint,
                            avail as int,
                            i as int,
                            n as int,
                        );
                    }
                    return Err(e);
                },
            }
        }
        i = i + 1;
    }

    // Protocol fee: the designed 1% plus all rounding dust.
    proof {
        lemma_dist_sums_bound(rs, accounts@, avail as int, n as int);
        lemma_share_of_le_total(avail as int, REQUIRED_SPLIT_TOTAL as int);
    }
    let fee: u64 = avail - distributed - held;
    let mut protocol_fee_sent: u64 = 0;
    let mut protocol_unclaimed: u64 = config.protocol_unclaimed;
    let pa_index = accounts.len() - 1;
    if fee > 0 {
        let pa = accounts[pa_index];
        if !pa.canonical {
            return Err(ErrorCode::InvalidProtocolFeeRecipient);
        }
        if !pa.is_writable {
            return Err(ErrorCode::InvalidProtocolFeeRecipient);
        }
        if !usable(&pa) {
            // Protocol account missing or frozen: accrue instead.
            protocol_unclaimed = protocol_unclaimed + fee;
        } else {
            if !pa.token_program_owned {
                return Err(ErrorCode::InvalidProtocolFeeRecipient);
            }
            if !pa.is_token_account {
                return Err(ErrorCode::InvalidProtocolFeeRecipient);
            }
            if pa.owner != protocol.fee_wallet {
                return Err(ErrorCode::InvalidProtocolFeeRecipient);
            }
            if pa.mint != config.mint {
                return Err(ErrorCode::InvalidProtocolFeeRecipient);
            }
            transfers.push(Transfer { to: pa.key, amount: fee });
            protocol_fee_sent = fee;
        }
    }
    let ghost transfers_after_fee = transfers@;

    // Self-healing: retire recipient liabilities whose account is now
    // usable, in full.
    let mut cleared: u64 = 0;
    let mut i: usize = 0;
    while i < n
        invariant
            0 <= i <= n,
            ledger@.len() == n,
            spec_heal_error_to(us, rs, accounts@, config.mint, avail as int, i as int) is None,
            cleared == spec_cleared_to(us, rs, accounts@, avail as int, i as int),
            transfers@ == transfers_after_fee + spec_heal_transfers_to(
                us,
                rs,
                accounts@,
                avail as int,
                i as int,
            ),
            forall|k: int|
                0 <= k < i ==> ledger@[k] == spec_final_unclaimed_at(
                    us,
                    rs,
                    accounts@,
                    avail as int,
                    now,
                    k,
                ),
            forall|k: int|
                i <= k < n ==> ledger@[k] == spec_post_dist_entry(
                    us,
                    rs,
                    accounts@,
                    avail as int,
                    now,
                    k,
                ),
        decreases n - i,
    {
        proof {
            lemma_cleared_bound(us, rs, accounts@, avail as int, i as int);
            lemma_sum_unclaimed_to_monotone(us, 0, i as int);
            lemma_sum_unclaimed_to_monotone(us, i as int + 1, n as int);
        }
        let entry = ledger[i];
        if entry.amount > 0 {
            let ata = accounts[i];
            if usable(&ata) {
                let recipient = config.recipients[i];
                match validate_and_send_to_recipient(&ata, &recipient, entry.amount, &config.mint) {
                    Ok(t) => {
                        transfers.push(t);
                        ledger[i] =
                        UnclaimedAmount {
                            recipient: entry.recipient,
                            amount: 0,
                            timestamp: entry.timestamp,
                        };
                        cleared = cleared + entry.amount;
                    },
                    Err(e) => {
                        proof {
                            lemma_heal_error_first(
                                us,
                                rs,
                                accounts@,
                                config.mint,
                                avail as int,
                                i as int,
                                n as int,
                            );
                        }
                        return Err(e);
                    },
                }
            }
        }
        i = i + 1;
    }
    proof {
        lemma_cleared_bound(us, rs, accounts@, avail as int, n as int);
    }

    // Self-healing for the protocol liability; silently skipped unless the
    // account fully validates.
    let mut protocol_unclaimed_cleared: u64 = 0;
    if protocol_unclaimed > 0 {
        let pa = accounts[pa_index];
        if usable(&pa) && pa.token_program_owned && pa.is_token_account && pa.owner
            == protocol.fee_wallet && pa.mint == config.mint {
            transfers.push(Transfer { to: pa.key, amount: protocol_unclaimed });
            protocol_unclaimed_cleared = protocol_unclaimed;
            protocol_unclaimed = 0;
        }
    }

    // Commit phase: one write-back of the updated ledger.
    config.unclaimed_amounts = ledger;
    config.protocol_unclaimed = protocol_unclaimed;
    config.last_activity = now;

    let event = SplitExecuted {
        vault: vault.key,
        total_amount: balance,
        recipients_distributed: distributed,
        protocol_fee: protocol_fee_sent,
        held_as_unclaimed: held,
        unclaimed_cleared: cleared,
        protocol_unclaimed_cleared,
        executor,
        timestamp: now,
    };
    proof {
        let pa = accounts@[accounts@.len() - 1];
        let dist_s = spec_distributed_to(rs, accounts@, avail as int, n as int);
        let held_s = spec_held_to(rs, accounts@, avail as int, n as int);
        let fee_s = avail - dist_s - held_s;
        let fee_seq: Seq<Transfer> = if fee_s > 0 && spec_usable(&pa) {
            seq![(Transfer { to: pa.key, amount: fee_s as u64 })]
        } else {
            Seq::empty()
        };
        let p1 = old(config).protocol_unclaimed + if fee_s > 0 && !spec_usable(&pa) {
            fee_s
        } else {
            0
        };
        let p_seq: Seq<Transfer> = if p1 > 0 && spec_protocol_heal_ok(
            pa,
            protocol.fee_wallet,
            old(config).mint,
        ) {
            seq![(Transfer { to: pa.key, amount: p1 as u64 })]
        } else {
            Seq::empty()
        };
        assert(transfers_after_fee =~= spec_dist_transfers_to(rs, accounts@, avail as int, n as int)
            + fee_seq);
        assert(transfers@ =~= spec_dist_transfers_to(rs, accounts@, avail as int, n as int)
            + fee_seq + spec_heal_transfers_to(us, rs, accounts@, avail as int, n as int) + p_seq);
        assert(transfers@ == spec_transfers_of(*old(config), *vault, protocol.fee_wallet, accounts@));
    }
    Ok((transfers, event))
}

proof fn lemma_zero_avail_phase(rs: Seq<Recipient>, accounts: Seq<AccountRef>, mint: Address, n: int)
    requires
        n >= 0,
    ensures
        spec_distributed_to(rs, accounts, 0, n) == 0,
        spec_held_to(rs, accounts, 0, n) == 0,
        spec_dist_transfers_to(rs, accounts, 0, n) == Seq::<Transfer>::empty(),
        spec_dist_error_to(rs, accounts, mint, 0, n) is None,
    decreases n,
{
    if n > 0 {
        lemma_zero_avail_phase(rs, accounts, mint, n - 1);
        assert(spec_share_at(rs, 0, n - 1) == 0);
    }
}

proof fn lemma_final_ledger_sum(
    us: Seq<UnclaimedAmount>,
    us2: Seq<UnclaimedAmount>,
    rs: Seq<Recipient>,
    accounts: Seq<AccountRef>,
    avail: int,
    now: i64,
    n: int,
)
    requires
        n >= 0,
        avail >= 0,
        forall|i: int|
            0 <= i < n ==> us2[i] == spec_final_unclaimed_at(us, rs, accounts, avail, now, i),
        forall|i: int|
            0 <= i < n ==> spec_post_dist_amount(us, rs, accounts, avail, i) <= u64::MAX,
    ensures
        sum_unclaimed_to(us2, n) == sum_unclaimed_to(us, n) + spec_held_to(rs, accounts, avail, n)
            - spec_cleared_to(us, rs, accounts, avail, n),
    decreases n,
{
    if n > 0 {
        lemma_final_ledger_sum(us, us2, rs, accounts, avail, now, n - 1);
    }
}

proof fn lemma_no_heal_prefix(
    us: Seq<UnclaimedAmount>,
    rs: Seq<Recipient>,
    accounts: Seq<AccountRef>,
    mint: Address,
    avail: int,
    n: int,
)
    requires
        n >= 0,
        forall|i: int| 0 <= i < n ==> !spec_heals(us, rs, accounts, avail, i),
    ensures
        spec_cleared_to(us, rs, accounts, avail, n) == 0,
        spec_heal_transfers_to(us, rs, accounts, avail, n) == Seq::<Transfer>::empty(),
        spec_heal_error_to(us, rs, accounts, mint, avail, n) is None,
    decreases n,
{
    if n > 0 {
        lemma_no_heal_prefix(us, rs, accounts, mint, avail, n - 1);
    }
}

/// Distribution is dust-conservative: what the recipients are paid, what is
/// newly held for them, and the protocol fee partition the available
/// balance exactly — no funds are created or destroyed, and floor-rounding
/// dust is part of the fee, never lost.
pub proof fn lemma_dust_conservative(c: SplitConfig, vault: AccountRef, accounts: Seq<AccountRef>)
    requires
        c.wf(),
        spec_available(vault.amount, c) >= 0,
    ensures
        ({
            let avail = spec_available(vault.amount, c);
            let n = c.recipients@.len() as int;
            let dist = spec_distributed_to(c.recipients@, accounts, avail, n);
            let held = spec_held_to(c.recipients@, accounts, avail, n);
            let fee = spec_fee_of(c, vault, accounts);
            &&& 0 <= dist
            &&& 0 <= held
            &&& 0 <= fee
            &&& dist + held + fee == avail
        }),
{
    let avail = spec_available(vault.amount, c);
    let n = c.recipients@.len() as int;
    lemma_dist_sums_bound(c.recipients@, accounts, avail, n);
    lemma_share_of_le_total(avail, REQUIRED_SPLIT_TOTAL as int);
}

/// Self-healing is monotonically decreasing: a recipient's liability never
/// grows except by this call's own accrual, and once the receiving account
/// is usable it is retired to exactly zero in one call — never partially.
pub proof fn lemma_self_healing_monotone(
    us: Seq<UnclaimedAmount>,
    rs: Seq<Recipient>,
    accounts: Seq<AccountRef>,
    avail: int,
    now: i64,
    i: int,
)
    requires
        avail >= 0,
        0 <= i < rs.len(),
        spec_post_dist_amount(us, rs, accounts, avail, i) <= u64::MAX,
    ensures
        ({
            let after = spec_final_unclaimed_at(us, rs, accounts, avail, now, i).amount;
            &&& spec_usable(&accounts[i]) ==> after == 0
            &&& !spec_usable(&accounts[i]) ==> after == spec_post_dist_amount(
                us,
                rs,
                accounts,
                avail,
                i,
            )
            &&& spec_post_dist_amount(us, rs, accounts, avail, i) >= us[i].amount
            &&& !spec_accrues(rs, accounts, avail, i) ==> spec_post_dist_amount(
                us,
                rs,
                accounts,
                avail,
                i,
            ) == us[i].amount
            &&& after == 0 || after >= us[i].amount
        }),
{
    lemma_share_of_nonneg(avail, rs[i].percentage_bps as int);
}

/// Executing a split is idempotent on an unchanged pooled balance: after a
/// successful call commits its record (`c2`) and the host debits the vault
/// by the call's outflow (`vault2`), a second call with the same account
/// states finds an available balance of exactly zero, performs no transfer,
/// and leaves every liability unchanged.
pub proof fn lemma_execute_idempotent(
    c: SplitConfig,
    c2: SplitConfig,
    vault: AccountRef,
    vault2: AccountRef,
    fee_wallet: Address,
    accounts: Seq<AccountRef>,
    now: i64,
    now2: i64,
)
    requires
        c.wf(),
        spec_execute_error(c, vault, fee_wallet, accounts) is None,
        c2.recipients@ == c.recipients@,
        c2.mint == c.mint,
        c2.vault == c.vault,
        c2.unclaimed_amounts@.len() == c.recipients@.len(),
        forall|i: int|
            0 <= i < c.recipients@.len() ==> c2.unclaimed_amounts@[i] == spec_final_unclaimed_at(
                c.unclaimed_amounts@,
                c.recipients@,
                accounts,
                spec_available(vault.amount, c),
                now,
                i,
            ),
        c2.protocol_unclaimed == spec_protocol_after(c, vault, fee_wallet, accounts),
        vault2.key == vault.key,
        vault2.amount == vault.amount - spec_outflow(c, vault, fee_wallet, accounts),
    ensures
        spec_available(vault2.amount, c2) == 0,
        spec_execute_error(c2, vault2, fee_wallet, accounts) is None,
        spec_transfers_of(c2, vault2, fee_wallet, accounts) == Seq::<Transfer>::empty(),
        spec_outflow(c2, vault2, fee_wallet, accounts) == 0,
        forall|i: int|
            0 <= i < c2.recipients@.len() ==> spec_final_unclaimed_at(
                c2.unclaimed_amounts@,
                c2.recipients@,
                accounts,
                spec_available(vault2.amount, c2),
                now2,
                i,
            ) == c2.unclaimed_amounts@[i],
        spec_protocol_after(c2, vault2, fee_wallet, accounts) == c2.protocol_unclaimed,
{
    let rs = c.recipients@;
    let us = c.unclaimed_amounts@;
    let us2 = c2.unclaimed_amounts@;
    let n = rs.len() as int;
    let avail = spec_available(vault.amount, c);
    let pa = accounts[accounts.len() - 1];
    let fee = spec_fee_of(c, vault, accounts);
    let dist = spec_distributed_to(rs, accounts, avail, n);
    let held = spec_held_to(rs, accounts, avail, n);
    let cleared = spec_cleared_to(us, rs, accounts, avail, n);
    let p1 = c.protocol_unclaimed + if fee > 0 && !spec_usable(&pa) {
        fee
    } else {
        0
    };

    lemma_dist_sums_bound(rs, accounts, avail, n);
    lemma_share_of_le_total(avail, REQUIRED_SPLIT_TOTAL as int);
    lemma_cleared_bound(us, rs, accounts, avail, n);

    // Per-entry bounds so the committed u64 amounts are the exact sums.
    assert forall|i: int|
        0 <= i < n implies spec_post_dist_amount(us, rs, accounts, avail, i) <= u64::MAX by {
        lemma_unclaimed_elem_le_sum(us, i, n);
        lemma_sum_bps_to_monotone(rs, 0, i);
        lemma_sum_bps_to_monotone(rs, i + 1, n);
        lemma_share_of_le_total(avail, rs[i].percentage_bps as int);
    }
    lemma_final_ledger_sum(us, us2, rs, accounts, avail, now, n);

    // The fee is disposed of in exactly one way, so the new available
    // balance is zero.
    assert(spec_available(vault2.amount, c2) == 0);

    let avail2 = spec_available(vault2.amount, c2);
    lemma_zero_avail_phase(rs, accounts, c.mint, n);

    // Whatever was healable was healed: a usable account's entry is now
    // zero, so the second healing pass has nothing to do.
    assert forall|i: int| 0 <= i < n implies !spec_heals(us2, rs, accounts, avail2, i) by {
        assert(spec_share_at(rs, avail2, i) == 0);
        if spec_usable(&accounts[i]) {
            assert(us2[i].amount == 0);
        }
    }
    lemma_no_heal_prefix(us2, rs, accounts, c.mint, avail2, n);

    assert(spec_transfers_of(c2, vault2, fee_wallet, accounts) =~= Seq::<Transfer>::empty());

    assert forall|i: int|
        0 <= i < n implies spec_final_unclaimed_at(us2, rs, accounts, avail2, now2, i)
        == us2[i] by {
        assert(spec_share_at(rs, avail2, i) == 0);
        if spec_usable(&accounts[i]) {
            assert(us2[i].amount == 0);
        }
    }
}

} // verus!
