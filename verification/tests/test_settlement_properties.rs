//! Scenario tests for the engine's accounting properties: self-healing,
//! dust conservation, liability protection, and the aborting validation
//! paths.

use cascade_splits::accounts::AccountRef;
use cascade_splits::errors::ErrorCode;
use cascade_splits::execute::{execute_split, Transfer};
use cascade_splits::lifecycle::{create_split_config, validate_recipient_inputs};
use cascade_splits::state::{Address, ProtocolConfig, RecipientInput, SplitConfig};

fn addr(n: u128) -> Address {
    Address { hi: 0, lo: n }
}

fn good_ata(key: Address, owner: Address, mint: Address) -> AccountRef {
    AccountRef {
        key,
        exists: true,
        canonical: true,
        token_program_owned: true,
        is_token_account: true,
        frozen: false,
        owner,
        mint,
        amount: 0,
        is_writable: true,
    }
}

fn missing_ata(key: Address) -> AccountRef {
    AccountRef {
        key,
        exists: false,
        canonical: true,
        token_program_owned: false,
        is_token_account: false,
        frozen: false,
        owner: Address { hi: 0, lo: 0 },
        mint: Address { hi: 0, lo: 0 },
        amount: 0,
        is_writable: true,
    }
}

const AUTHORITY: u128 = 1;
const VAULT: u128 = 2;
const MINT: u128 = 50;
const FEE_WALLET: u128 = 5;
const EXECUTOR: u128 = 6;
const NOW: i64 = 1_111;

fn protocol_config() -> ProtocolConfig {
    ProtocolConfig {
        authority: addr(AUTHORITY),
        pending_authority: Address { hi: 0, lo: 0 },
        fee_wallet: addr(FEE_WALLET),
    }
}

fn protocol_ata() -> AccountRef {
    good_ata(addr(200), addr(FEE_WALLET), addr(MINT))
}

fn single_recipient_config() -> SplitConfig {
    let recipient1 = addr(10);
    let recipients = vec![RecipientInput { address: recipient1, percentage_bps: 9900 }];
    let atas = vec![good_ata(addr(300), recipient1, addr(MINT))];
    create_split_config(
        addr(AUTHORITY),
        addr(MINT),
        addr(VAULT),
        addr(3),
        addr(4),
        &recipients,
        &atas,
    )
    .unwrap()
}

fn vault_with(amount: u64) -> AccountRef {
    AccountRef {
        key: addr(VAULT),
        exists: true,
        canonical: true,
        token_program_owned: true,
        is_token_account: true,
        frozen: false,
        owner: addr(99),
        mint: addr(MINT),
        amount,
        is_writable: true,
    }
}

#[test]
fn self_healing_clears_prior_liability_in_full() {
    // A prior liability of 500,000 exists; the receiving account has since
    // been created. With the pooled balance still 1,000,000, one call both
    // settles the newly available 500,000 and retires the full 500,000 —
    // never a part of it.
    let recipient1 = addr(10);
    let mut config = single_recipient_config();
    config.unclaimed_amounts[0].recipient = recipient1;
    config.unclaimed_amounts[0].amount = 500_000;
    config.unclaimed_amounts[0].timestamp = 1_234_567_890;

    let rec_ata = good_ata(addr(300), recipient1, addr(MINT));
    let accounts = vec![rec_ata, protocol_ata()];

    let (transfers, event) = execute_split(
        &mut config,
        &vault_with(1_000_000),
        &protocol_config(),
        addr(EXECUTOR),
        &accounts,
        NOW,
    )
    .unwrap();

    assert_eq!(
        transfers,
        vec![
            // 99% of the 500,000 that was newly available,
            Transfer { to: addr(300), amount: 495_000 },
            // the fee on it,
            Transfer { to: addr(200), amount: 5_000 },
            // and the prior liability, in full.
            Transfer { to: addr(300), amount: 500_000 },
        ]
    );
    assert_eq!(event.unclaimed_cleared, 500_000);
    assert_eq!(config.unclaimed_amounts[0].amount, 0);
}

#[test]
fn self_healing_retires_protocol_liability() {
    let recipient1 = addr(10);
    let mut config = single_recipient_config();
    config.protocol_unclaimed = 7_000;

    let accounts = vec![good_ata(addr(300), recipient1, addr(MINT)), protocol_ata()];

    // Vault holds exactly the liability: nothing is newly available.
    let (transfers, event) = execute_split(
        &mut config,
        &vault_with(7_000),
        &protocol_config(),
        addr(EXECUTOR),
        &accounts,
        NOW,
    )
    .unwrap();

    assert_eq!(transfers, vec![Transfer { to: addr(200), amount: 7_000 }]);
    assert_eq!(event.protocol_unclaimed_cleared, 7_000);
    assert_eq!(config.protocol_unclaimed, 0);
}

#[test]
fn protocol_healing_is_silent_on_mismatched_account() {
    // The protocol account exists but records the wrong owner: the healing
    // pass neither transfers nor errors, and the liability stays.
    let recipient1 = addr(10);
    let mut config = single_recipient_config();
    config.protocol_unclaimed = 7_000;

    let wrong_owner_ata = good_ata(addr(200), addr(66), addr(MINT));
    let accounts = vec![good_ata(addr(300), recipient1, addr(MINT)), wrong_owner_ata];

    let (transfers, event) = execute_split(
        &mut config,
        &vault_with(7_000),
        &protocol_config(),
        addr(EXECUTOR),
        &accounts,
        NOW,
    )
    .unwrap();

    assert!(transfers.is_empty());
    assert_eq!(event.protocol_unclaimed_cleared, 0);
    assert_eq!(config.protocol_unclaimed, 7_000);
}

#[test]
fn frozen_account_accrues_liability() {
    let recipient1 = addr(10);
    let mut config = single_recipient_config();
    let mut frozen = good_ata(addr(300), recipient1, addr(MINT));
    frozen.frozen = true;
    let accounts = vec![frozen, protocol_ata()];

    let (transfers, event) = execute_split(
        &mut config,
        &vault_with(1_000_000),
        &protocol_config(),
        addr(EXECUTOR),
        &accounts,
        NOW,
    )
    .unwrap();

    assert_eq!(transfers, vec![Transfer { to: addr(200), amount: 10_000 }]);
    assert_eq!(event.held_as_unclaimed, 990_000);
    assert_eq!(config.unclaimed_amounts[0].amount, 990_000);
}

#[test]
fn zero_share_is_skipped_without_liability() {
    // With a pooled balance this small every share floors to zero: nothing
    // is transferred, nothing accrues, and the whole balance is left in
    // place (accepted dust behaviour; the fee is zero because nothing was
    // distributed).
    let r1 = addr(10);
    let r2 = addr(11);
    let recipients = vec![
        RecipientInput { address: r1, percentage_bps: 1 },
        RecipientInput { address: r2, percentage_bps: 9899 },
    ];
    let atas = vec![good_ata(addr(300), r1, addr(MINT)), good_ata(addr(301), r2, addr(MINT))];
    let mut config = create_split_config(
        addr(AUTHORITY),
        addr(MINT),
        addr(VAULT),
        addr(3),
        addr(4),
        &recipients,
        &atas,
    )
    .unwrap();

    let accounts = vec![
        good_ata(addr(300), r1, addr(MINT)),
        good_ata(addr(301), r2, addr(MINT)),
        protocol_ata(),
    ];
    // share(3, 1) = 0; share(3, 9899) = 2; fee = 1.
    let (transfers, event) = execute_split(
        &mut config,
        &vault_with(3),
        &protocol_config(),
        addr(EXECUTOR),
        &accounts,
        NOW,
    )
    .unwrap();

    assert_eq!(
        transfers,
        vec![Transfer { to: addr(301), amount: 2 }, Transfer { to: addr(200), amount: 1 }]
    );
    assert_eq!(event.recipients_distributed, 2);
    assert_eq!(event.protocol_fee, 1);
    assert_eq!(config.unclaimed_amounts[0].amount, 0);
    assert_eq!(config.unclaimed_amounts[1].amount, 0);
}

#[test]
fn dust_conservation_on_awkward_balance() {
    // distributed + fee + newly held must equal the available balance
    // exactly, whatever the rounding.
    let r1 = addr(10);
    let r2 = addr(11);
    let r3 = addr(12);
    let recipients = vec![
        RecipientInput { address: r1, percentage_bps: 3333 },
        RecipientInput { address: r2, percentage_bps: 3333 },
        RecipientInput { address: r3, percentage_bps: 3234 },
    ];
    let atas = vec![
        good_ata(addr(300), r1, addr(MINT)),
        good_ata(addr(301), r2, addr(MINT)),
        good_ata(addr(302), r3, addr(MINT)),
    ];
    let mut config = create_split_config(
        addr(AUTHORITY),
        addr(MINT),
        addr(VAULT),
        addr(3),
        addr(4),
        &recipients,
        &atas,
    )
    .unwrap();

    // The middle account is missing, so its share accrues.
    let accounts = vec![
        good_ata(addr(300), r1, addr(MINT)),
        missing_ata(addr(301)),
        good_ata(addr(302), r3, addr(MINT)),
        protocol_ata(),
    ];
    let available = 999_983u64;
    let (_, event) = execute_split(
        &mut config,
        &vault_with(available),
        &protocol_config(),
        addr(EXECUTOR),
        &accounts,
        NOW,
    )
    .unwrap();

    assert_eq!(
        event.recipients_distributed + event.protocol_fee + event.held_as_unclaimed,
        available
    );
    assert_eq!(event.held_as_unclaimed, config.unclaimed_amounts[1].amount);
}

#[test]
fn liabilities_above_balance_underflow() {
    // Liabilities exceeding the pooled balance signal a broken accounting
    // history and abort the call.
    let mut config = single_recipient_config();
    config.unclaimed_amounts[0].amount = 2_000_000;

    let accounts = vec![missing_ata(addr(300)), protocol_ata()];
    let r = execute_split(
        &mut config,
        &vault_with(1_000_000),
        &protocol_config(),
        addr(EXECUTOR),
        &accounts,
        NOW,
    );
    assert_eq!(r, Err(ErrorCode::MathUnderflow));
    assert_eq!(config.unclaimed_amounts[0].amount, 2_000_000);
}

#[test]
fn liability_sum_overflow_is_detected() {
    let r1 = addr(10);
    let r2 = addr(11);
    let recipients = vec![
        RecipientInput { address: r1, percentage_bps: 5000 },
        RecipientInput { address: r2, percentage_bps: 4900 },
    ];
    let atas = vec![good_ata(addr(300), r1, addr(MINT)), good_ata(addr(301), r2, addr(MINT))];
    let mut config = create_split_config(
        addr(AUTHORITY),
        addr(MINT),
        addr(VAULT),
        addr(3),
        addr(4),
        &recipients,
        &atas,
    )
    .unwrap();
    config.unclaimed_amounts[0].amount = u64::MAX;
    config.unclaimed_amounts[1].amount = u64::MAX;

    let accounts = vec![missing_ata(addr(300)), missing_ata(addr(301)), protocol_ata()];
    let r = execute_split(
        &mut config,
        &vault_with(1_000_000),
        &protocol_config(),
        addr(EXECUTOR),
        &accounts,
        NOW,
    );
    assert_eq!(r, Err(ErrorCode::MathOverflow));
}

#[test]
fn misdirected_recipient_account_aborts() {
    let recipient1 = addr(10);
    let mut config = single_recipient_config();

    // Present, but not at the canonical derived address.
    let mut shifted = good_ata(addr(300), recipient1, addr(MINT));
    shifted.canonical = false;
    let accounts = vec![shifted, protocol_ata()];
    let r = execute_split(
        &mut config,
        &vault_with(1_000_000),
        &protocol_config(),
        addr(EXECUTOR),
        &accounts,
        NOW,
    );
    assert_eq!(r, Err(ErrorCode::RecipientATAInvalid));
    // The record is untouched on an aborted call.
    assert_eq!(config.unclaimed_amounts[0].amount, 0);
    assert_eq!(config.last_activity, 0);

    // Present, but owned by a program that is no token ledger.
    let mut foreign = good_ata(addr(300), recipient1, addr(MINT));
    foreign.token_program_owned = false;
    let accounts = vec![foreign, protocol_ata()];
    let r = execute_split(
        &mut config,
        &vault_with(1_000_000),
        &protocol_config(),
        addr(EXECUTOR),
        &accounts,
        NOW,
    );
    assert_eq!(r, Err(ErrorCode::InvalidTokenProgram));

    // Present, but recording the wrong mint.
    let wrong_mint = good_ata(addr(300), recipient1, addr(51));
    let accounts = vec![wrong_mint, protocol_ata()];
    let r = execute_split(
        &mut config,
        &vault_with(1_000_000),
        &protocol_config(),
        addr(EXECUTOR),
        &accounts,
        NOW,
    );
    assert_eq!(r, Err(ErrorCode::RecipientATAWrongMint));
}

#[test]
fn misdirected_protocol_account_aborts() {
    let recipient1 = addr(10);
    let accounts_base = good_ata(addr(300), recipient1, addr(MINT));

    // Not at the canonical derived address.
    let mut config = single_recipient_config();
    let mut shifted = protocol_ata();
    shifted.canonical = false;
    let r = execute_split(
        &mut config,
        &vault_with(1_000_000),
        &protocol_config(),
        addr(EXECUTOR),
        &vec![accounts_base, shifted],
        NOW,
    );
    assert_eq!(r, Err(ErrorCode::InvalidProtocolFeeRecipient));

    // Not writable.
    let mut config = single_recipient_config();
    let mut sealed = protocol_ata();
    sealed.is_writable = false;
    let r = execute_split(
        &mut config,
        &vault_with(1_000_000),
        &protocol_config(),
        addr(EXECUTOR),
        &vec![accounts_base, sealed],
        NOW,
    );
    assert_eq!(r, Err(ErrorCode::InvalidProtocolFeeRecipient));

    // Present but owned by the wrong wallet.
    let mut config = single_recipient_config();
    let usurped = good_ata(addr(200), addr(66), addr(MINT));
    let r = execute_split(
        &mut config,
        &vault_with(1_000_000),
        &protocol_config(),
        addr(EXECUTOR),
        &vec![accounts_base, usurped],
        NOW,
    );
    assert_eq!(r, Err(ErrorCode::InvalidProtocolFeeRecipient));
}

#[test]
fn share_total_validation_is_exact() {
    // 9900 is necessary and sufficient for the share-total rule: one basis
    // point either way fails, exactly 9900 passes.
    let r1 = addr(10);
    let r2 = addr(11);
    let table = |b1: u16, b2: u16| {
        vec![
            RecipientInput { address: r1, percentage_bps: b1 },
            RecipientInput { address: r2, percentage_bps: b2 },
        ]
    };

    assert_eq!(validate_recipient_inputs(&table(5000, 4899)), Err(ErrorCode::InvalidSplitTotal));
    assert_eq!(validate_recipient_inputs(&table(5000, 4901)), Err(ErrorCode::InvalidSplitTotal));
    assert_eq!(validate_recipient_inputs(&table(5000, 4900)), Ok(()));
}

#[test]
fn accruals_accumulate_across_calls() {
    // Two missed cycles accumulate; the timestamp tracks the latest.
    let recipient1 = addr(10);
    let mut config = single_recipient_config();
    let accounts = vec![missing_ata(addr(300)), protocol_ata()];
    let protocol = protocol_config();

    execute_split(&mut config, &vault_with(1_000_000), &protocol, addr(EXECUTOR), &accounts, NOW)
        .unwrap();
    assert_eq!(config.unclaimed_amounts[0].amount, 990_000);

    // The host paid out the 10,000 fee; 500,000 fresh tokens arrive.
    execute_split(
        &mut config,
        &vault_with(1_000_000 - 10_000 + 500_000),
        &protocol,
        addr(EXECUTOR),
        &accounts,
        NOW + 7,
    )
    .unwrap();
    assert_eq!(config.unclaimed_amounts[0].recipient, recipient1);
    assert_eq!(config.unclaimed_amounts[0].amount, 990_000 + 495_000);
    assert_eq!(config.unclaimed_amounts[0].timestamp, NOW + 7);
}
