//! Tests for proposing a protocol authority handover.

use cascade_splits::errors::ErrorCode;
use cascade_splits::protocol::transfer_protocol_authority;
use cascade_splits::state::{Address, ProtocolConfig};

fn addr(n: u128) -> Address {
    Address { hi: 0, lo: n }
}

fn protocol_config(authority: Address) -> ProtocolConfig {
    ProtocolConfig {
        authority,
        pending_authority: Address { hi: 0, lo: 0 },
        fee_wallet: addr(100),
    }
}

#[test]
fn test_transfer_protocol_authority_success() {
    let authority = addr(1);
    let candidate = addr(2);
    let mut config = protocol_config(authority);

    transfer_protocol_authority(&mut config, authority, candidate).unwrap();
    assert_eq!(config.pending_authority, candidate);
    // The acting authority does not change until the candidate accepts.
    assert_eq!(config.authority, authority);
}

#[test]
fn test_transfer_protocol_authority_wrong_authority_fails() {
    let authority = addr(1);
    let impostor = addr(9);
    let mut config = protocol_config(authority);

    let r = transfer_protocol_authority(&mut config, impostor, addr(2));
    assert_eq!(r, Err(ErrorCode::Unauthorized));
    assert!(config.pending_authority.is_zero());
}

#[test]
fn test_transfer_protocol_authority_to_self() {
    let authority = addr(1);
    let mut config = protocol_config(authority);

    transfer_protocol_authority(&mut config, authority, authority).unwrap();
    assert_eq!(config.pending_authority, authority);
    assert_eq!(config.authority, authority);
}
