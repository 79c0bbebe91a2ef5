//! Tests for replacing a split's recipient table.

use cascade_splits::accounts::AccountRef;
use cascade_splits::errors::ErrorCode;
use cascade_splits::lifecycle::{create_split_config, update_split_config};
use cascade_splits::state::{Address, RecipientInput, SplitConfig};

fn addr(n: u128) -> Address {
    Address { hi: 0, lo: n }
}

fn good_ata(key: Address, owner: Address, mint: Address) -> AccountRef {
    AccountRef {
        key,
        exists: true,
        canonical: true,
        token_program_owned: true,
        is_token_account: true,
        frozen: false,
        owner,
        mint,
        amount: 0,
        is_writable: true,
    }
}

fn rec(address: Address, bps: u16) -> RecipientInput {
    RecipientInput { address, percentage_bps: bps }
}

const AUTHORITY: u128 = 1;
const VAULT: u128 = 2;
const MINT: u128 = 50;

/// A fresh split with one recipient at 9900 bps.
fn base_config() -> SplitConfig {
    let recipient1 = addr(10);
    let recipients = vec![rec(recipient1, 9900)];
    let atas = vec![good_ata(addr(110), recipient1, addr(MINT))];
    create_split_config(
        addr(AUTHORITY),
        addr(MINT),
        addr(VAULT),
        addr(3),
        addr(4),
        &recipients,
        &atas,
    )
    .unwrap()
}

/// The split's vault, holding `amount`.
fn vault_with(amount: u64) -> AccountRef {
    AccountRef {
        key: addr(VAULT),
        exists: true,
        canonical: true,
        token_program_owned: true,
        is_token_account: true,
        frozen: false,
        owner: addr(99),
        mint: addr(MINT),
        amount,
        is_writable: true,
    }
}

#[test]
fn test_update_split_config_success() {
    let mut config = base_config();
    let recipient1 = addr(11);
    let recipient2 = addr(12);
    let new_recipients = vec![rec(recipient1, 5000), rec(recipient2, 4900)];
    let atas = vec![
        good_ata(addr(111), recipient1, addr(MINT)),
        good_ata(addr(112), recipient2, addr(MINT)),
    ];

    update_split_config(&mut config, addr(AUTHORITY), &vault_with(0), &new_recipients, &atas)
        .unwrap();
    assert_eq!(config.recipients.len(), 2);
    assert_eq!(config.recipients[0].address, recipient1);
    assert_eq!(config.recipients[0].percentage_bps, 5000);
    assert_eq!(config.recipients[1].address, recipient2);
    assert_eq!(config.recipients[1].percentage_bps, 4900);
    assert_eq!(config.unclaimed_amounts.len(), 2);
    assert_eq!(config.unclaimed_amounts[0].amount, 0);
    assert_eq!(config.unclaimed_amounts[1].amount, 0);
}

#[test]
fn test_update_split_config_wrong_authority_fails() {
    let mut config = base_config();
    let recipient1 = addr(11);
    let new_recipients = vec![rec(recipient1, 9900)];
    let atas = vec![good_ata(addr(111), recipient1, addr(MINT))];

    let r = update_split_config(&mut config, addr(9), &vault_with(0), &new_recipients, &atas);
    assert_eq!(r, Err(ErrorCode::Unauthorized));
    assert_eq!(config.recipients[0].address, addr(10));
}

#[test]
fn test_update_split_config_vault_not_empty_fails() {
    let mut config = base_config();
    let recipient1 = addr(11);
    let new_recipients = vec![rec(recipient1, 9900)];
    let atas = vec![good_ata(addr(111), recipient1, addr(MINT))];

    let r = update_split_config(
        &mut config,
        addr(AUTHORITY),
        &vault_with(1_000_000),
        &new_recipients,
        &atas,
    );
    assert_eq!(r, Err(ErrorCode::VaultNotEmpty));
}

#[test]
fn test_update_split_config_invalid_split_total_fails() {
    let mut config = base_config();
    let recipient1 = addr(11);
    // Only 50%, should be 99%
    let new_recipients = vec![rec(recipient1, 5000)];
    let atas = vec![good_ata(addr(111), recipient1, addr(MINT))];

    let r = update_split_config(&mut config, addr(AUTHORITY), &vault_with(0), &new_recipients, &atas);
    assert_eq!(r, Err(ErrorCode::InvalidSplitTotal));
}

#[test]
fn test_update_split_config_duplicate_recipients_fails() {
    let mut config = base_config();
    let recipient1 = addr(11);
    let new_recipients = vec![rec(recipient1, 5000), rec(recipient1, 4900)];
    let atas = vec![
        good_ata(addr(111), recipient1, addr(MINT)),
        good_ata(addr(111), recipient1, addr(MINT)),
    ];

    let r = update_split_config(&mut config, addr(AUTHORITY), &vault_with(0), &new_recipients, &atas);
    assert_eq!(r, Err(ErrorCode::DuplicateRecipient));
}

#[test]
fn test_update_split_config_zero_address_fails() {
    let mut config = base_config();
    let zero = Address { hi: 0, lo: 0 };
    let new_recipients = vec![rec(zero, 9900)];
    let atas = vec![good_ata(addr(111), zero, addr(MINT))];

    let r = update_split_config(&mut config, addr(AUTHORITY), &vault_with(0), &new_recipients, &atas);
    assert_eq!(r, Err(ErrorCode::ZeroAddress));
}

#[test]
fn test_update_split_config_zero_percentage_fails() {
    let mut config = base_config();
    let recipient1 = addr(11);
    let recipient2 = addr(12);
    let new_recipients = vec![rec(recipient1, 0), rec(recipient2, 9900)];
    let atas = vec![
        good_ata(addr(111), recipient1, addr(MINT)),
        good_ata(addr(112), recipient2, addr(MINT)),
    ];

    let r = update_split_config(&mut config, addr(AUTHORITY), &vault_with(0), &new_recipients, &atas);
    assert_eq!(r, Err(ErrorCode::ZeroPercentage));
}

#[test]
fn test_update_split_config_recipient_ata_does_not_exist_fails() {
    let mut config = base_config();
    let recipient1 = addr(11);
    let new_recipients = vec![rec(recipient1, 9900)];
    let mut ata = good_ata(addr(111), recipient1, addr(MINT));
    ata.exists = false;
    let atas = vec![ata];

    let r = update_split_config(&mut config, addr(AUTHORITY), &vault_with(0), &new_recipients, &atas);
    assert_eq!(r, Err(ErrorCode::RecipientATADoesNotExist));
}

#[test]
fn test_update_split_config_recipient_ata_wrong_owner_fails() {
    let mut config = base_config();
    let recipient1 = addr(11);
    let new_recipients = vec![rec(recipient1, 9900)];
    let atas = vec![good_ata(addr(111), addr(66), addr(MINT))];

    let r = update_split_config(&mut config, addr(AUTHORITY), &vault_with(0), &new_recipients, &atas);
    assert_eq!(r, Err(ErrorCode::RecipientATAWrongOwner));
}

#[test]
fn test_update_split_config_preserves_vault_address() {
    let mut config = base_config();
    let old_vault = config.vault;
    let r1 = addr(11);
    let r2 = addr(12);
    let r3 = addr(13);
    let new_recipients = vec![rec(r1, 3300), rec(r2, 3300), rec(r3, 3300)];
    let atas = vec![
        good_ata(addr(111), r1, addr(MINT)),
        good_ata(addr(112), r2, addr(MINT)),
        good_ata(addr(113), r3, addr(MINT)),
    ];

    update_split_config(&mut config, addr(AUTHORITY), &vault_with(0), &new_recipients, &atas)
        .unwrap();
    assert_eq!(config.vault, old_vault);
    assert_eq!(config.recipients.len(), 3);
}

#[test]
fn update_split_config_liabilities_must_be_zero() {
    let mut config = base_config();
    config.unclaimed_amounts[0].amount = 500;
    let recipient1 = addr(11);
    let new_recipients = vec![rec(recipient1, 9900)];
    let atas = vec![good_ata(addr(111), recipient1, addr(MINT))];

    let r = update_split_config(&mut config, addr(AUTHORITY), &vault_with(0), &new_recipients, &atas);
    assert_eq!(r, Err(ErrorCode::UnclaimedNotEmpty));
    assert_eq!(config.unclaimed_amounts[0].amount, 500);

    // A protocol liability blocks the update just the same.
    let mut config2 = base_config();
    config2.protocol_unclaimed = 7;
    let r2 = update_split_config(
        &mut config2,
        addr(AUTHORITY),
        &vault_with(0),
        &new_recipients,
        &atas,
    );
    assert_eq!(r2, Err(ErrorCode::UnclaimedNotEmpty));
}

#[test]
fn update_split_config_wrong_vault_fails() {
    let mut config = base_config();
    let recipient1 = addr(11);
    let new_recipients = vec![rec(recipient1, 9900)];
    let atas = vec![good_ata(addr(111), recipient1, addr(MINT))];

    let mut wrong_vault = vault_with(0);
    wrong_vault.key = addr(77);
    let r = update_split_config(&mut config, addr(AUTHORITY), &wrong_vault, &new_recipients, &atas);
    assert_eq!(r, Err(ErrorCode::InvalidVault));
}
