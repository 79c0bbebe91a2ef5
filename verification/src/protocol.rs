//! Protocol-level configuration: creation, fee-wallet update, and the
//! two-step authority handover.

use vstd::prelude::*;

use vstd::arithmetic::power2::{
    lemma2_to64, lemma_pow2_adds, lemma_pow2_pos, lemma_pow2_strictly_increases, pow2,
};

use crate::errors::ErrorCode;
use crate::state::{Address, ProtocolConfig};

verus! {

/// What the host observed about the program's upgradeable-loader data
/// account, whose payload records the current upgrade authority.
#[derive(Clone, PartialEq, Eq, Debug)]
pub struct ProgramDataRef {
    /// Whether the reference's address is the canonical derived program-data
    /// address.
    pub canonical: bool,
    /// Whether the account is owned by the upgradeable loader.
    pub owned_by_loader: bool,
    /// The account's raw payload.
    pub data: Vec<u8>,
}

/// The big-endian value of the `n` bytes of `d` starting at `start`.
pub open spec fn be_bytes(d: Seq<u8>, start: int, n: int) -> int
    decreases n,
{
    if n <= 0 {
        0
    } else {
        be_bytes(d, start, n - 1) * 256 + d[start + n - 1]
    }
}

/// The upgrade authority recorded in an upgradeable-loader program-data
/// payload: byte 12 is the option discriminant (1 = present), bytes 13..45
/// the authority address, big-endian in two 16-byte halves.
pub open spec fn spec_program_upgrade_authority(d: Seq<u8>) -> Option<Address> {
    if d.len() < 45 || d[12] != 1 {
        None
    } else {
        Some(
            Address {
                hi: be_bytes(d, 13, 16) as u128,
                lo: be_bytes(d, 29, 16) as u128,
            },
        )
    }
}

proof fn lemma_be_bytes_bound(d: Seq<u8>, start: int, n: int)
    requires
        0 <= n,
    ensures
        0 <= be_bytes(d, start, n) < pow2((8 * n) as nat),
    decreases n,
{
    lemma_pow2_pos((8 * n) as nat);
    if n > 0 {
        lemma_be_bytes_bound(d, start, n - 1);
        lemma_pow2_adds((8 * (n - 1)) as nat, 8);
        lemma2_to64();
    }
}

/// Reads 16 bytes starting at `start` as one big-endian unsigned value.
fn read_u128_be(data: &[u8], start: usize) -> (r: u128)
    requires
        start + 16 <= data@.len(),
    ensures
        r == be_bytes(data@, start as int, 16),
{
    let len = data.len();
    let mut acc: u128 = 0;
    let mut j: usize = 0;
    while j < 16
        invariant
            0 <= j <= 16,
            start + 16 <= len == data@.len(),
            acc == be_bytes(data@, start as int, j as int),
        decreases 16 - j,
    {
        proof {
            lemma_be_bytes_bound(data@, start as int, j as int);
            lemma_pow2_adds((8 * j) as nat, 8);
            lemma2_to64();
            if 8 * j + 8 < 128 {
                lemma_pow2_strictly_increases((8 * j + 8) as nat, 128);
            }
            lemma_pow2_adds(64, 64);
        }
        let b = data[start + j];
        acc = acc * 256 + (b as u128);
        j = j + 1;
    }
    acc
}

/// Parses the upgrade authority out of a program-data payload, or reports
/// `Unauthorized` where the payload is too short or records no authority.
fn parse_upgrade_authority(data: &[u8]) -> (r: Result<Address, ErrorCode>)
    ensures
        r == match spec_program_upgrade_authority(data@) {
            Some(a) => Result::<Address, ErrorCode>::Ok(a),
            None => Result::<Address, ErrorCode>::Err(ErrorCode::Unauthorized),
        },
{
    if data.len() < 45 {
        return Err(ErrorCode::Unauthorized);
    }
    if data[12] != 1 {
        return Err(ErrorCode::Unauthorized);
    }
    proof {
        lemma_be_bytes_bound(data@, 13, 16);
        lemma_be_bytes_bound(data@, 29, 16);
        lemma_pow2_adds(64, 64);
        lemma2_to64();
    }
    let hi = read_u128_be(data, 13);
    let lo = read_u128_be(data, 29);
    Ok(Address { hi, lo })
}

/// Creates the protocol configuration.
///
/// Only the program's upgrade authority may deploy it: the signer must match
/// the authority recorded in the canonical, loader-owned program-data
/// account, and the fee wallet must not be the zero sentinel. On success the
/// signer becomes the protocol authority, with no transfer pending.
pub fn initialize_protocol(
    program_data: &ProgramDataRef,
    signer: Address,
    fee_wallet: Address,
) -> (r: Result<ProtocolConfig, ErrorCode>)
    ensures
        r matches Ok(c) ==> {
            &&& program_data.owned_by_loader
            &&& program_data.canonical
            &&& !fee_wallet.spec_is_zero()
            &&& spec_program_upgrade_authority(program_data.data@) == Some(signer)
            &&& c == (ProtocolConfig {
                authority: signer,
                pending_authority: Address { hi: 0, lo: 0 },
                fee_wallet,
            })
        },
        !program_data.owned_by_loader ==> r == Err::<ProtocolConfig, _>(ErrorCode::Unauthorized),
        program_data.owned_by_loader && fee_wallet.spec_is_zero()
            ==> r == Err::<ProtocolConfig, _>(ErrorCode::ZeroAddress),
        program_data.owned_by_loader && !fee_wallet.spec_is_zero() && !program_data.canonical
            ==> r == Err::<ProtocolConfig, _>(ErrorCode::Unauthorized),
        program_data.owned_by_loader && !fee_wallet.spec_is_zero() && program_data.canonical
            ==> r == match spec_program_upgrade_authority(program_data.data@) {
                Some(a) => if a == signer {
                    Ok(
                        ProtocolConfig {
                            authority: signer,
                            pending_authority: Address { hi: 0, lo: 0 },
                            fee_wallet,
                        },
                    )
                } else {
                    Err(ErrorCode::Unauthorized)
                },
                None => Err(ErrorCode::Unauthorized),
            },
{
    if !program_data.owned_by_loader {
        return Err(ErrorCode::Unauthorized);
    }
    if fee_wallet.is_zero() {
        return Err(ErrorCode::ZeroAddress);
    }
    if !program_data.canonical {
        return Err(ErrorCode::Unauthorized);
    }
    let upgrade_authority = match parse_upgrade_authority(program_data.data.as_slice()) {
        Ok(a) => a,
        Err(e) => {
            return Err(e);
        },
    };
    if !(upgrade_authority == signer) {
        return Err(ErrorCode::Unauthorized);
    }
    Ok(ProtocolConfig { authority: signer, pending_authority: Address::zero(), fee_wallet })
}

/// Updates the protocol fee wallet.
///
/// Only the current protocol authority may call; the new wallet must not be
/// the zero sentinel. Nothing else in the configuration changes.
pub fn update_protocol_config(
    config: &mut ProtocolConfig,
    signer: Address,
    new_fee_wallet: Address,
) -> (r: Result<(), ErrorCode>)
    ensures
        signer != old(config).authority ==> {
            &&& r == Err::<(), _>(ErrorCode::Unauthorized)
            &&& *final(config) == *old(config)
        },
        signer == old(config).authority && new_fee_wallet.spec_is_zero() ==> {
            &&& r == Err::<(), _>(ErrorCode::ZeroAddress)
            &&& *final(config) == *old(config)
        },
        signer == old(config).authority && !new_fee_wallet.spec_is_zero() ==> {
            &&& r == Ok::<(), ErrorCode>(())
            &&& *final(config) == (ProtocolConfig { fee_wallet: new_fee_wallet, ..*old(config) })
        },
{
    if !(signer == config.authority) {
        return Err(ErrorCode::Unauthorized);
    }
    if new_fee_wallet.is_zero() {
        return Err(ErrorCode::ZeroAddress);
    }
    config.fee_wallet = new_fee_wallet;
    Ok(())
}

/// Proposes an authority handover (or replaces or cancels a pending one).
///
/// Only the current authority may call. The candidate is recorded as
/// pending; proposing the zero sentinel cancels any pending handover. The
/// acting authority does not change until the candidate accepts.
pub fn transfer_protocol_authority(
    config: &mut ProtocolConfig,
    signer: Address,
    new_authority: Address,
) -> (r: Result<(), ErrorCode>)
    ensures
        signer != old(config).authority ==> {
            &&& r == Err::<(), _>(ErrorCode::Unauthorized)
            &&& *final(config) == *old(config)
        },
        signer == old(config).authority ==> {
            &&& r == Ok::<(), ErrorCode>(())
            &&& *final(config) == (ProtocolConfig { pending_authority: new_authority, ..*old(config) })
        },
{
    if !(signer == config.authority) {
        return Err(ErrorCode::Unauthorized);
    }
    config.pending_authority = new_authority;
    Ok(())
}

/// Completes a pending authority handover.
///
/// Only the exact pending candidate may call (the current authority cannot
/// self-accept unless it is the candidate); fails when no handover is
/// pending. On success the candidate becomes the authority and the pending
/// slot returns to the zero sentinel.
pub fn accept_protocol_authority(config: &mut ProtocolConfig, signer: Address) -> (r: Result<
    (),
    ErrorCode,
>)
    ensures
        old(config).pending_authority.spec_is_zero() ==> {
            &&& r == Err::<(), _>(ErrorCode::NoPendingTransfer)
            &&& *final(config) == *old(config)
        },
        !old(config).pending_authority.spec_is_zero() && signer != old(config).pending_authority
            ==> {
            &&& r == Err::<(), _>(ErrorCode::Unauthorized)
            &&& *final(config) == *old(config)
        },
        !old(config).pending_authority.spec_is_zero() && signer == old(config).pending_authority
            ==> {
            &&& r == Ok::<(), ErrorCode>(())
            &&& *final(config) == (ProtocolConfig {
                authority: old(config).pending_authority,
                pending_authority: Address { hi: 0, lo: 0 },
                ..*old(config)
            })
        },
{
    if config.pending_authority.is_zero() {
        return Err(ErrorCode::NoPendingTransfer);
    }
    if !(signer == config.pending_authority) {
        return Err(ErrorCode::Unauthorized);
    }
    config.authority = config.pending_authority;
    config.pending_authority = Address::zero();
    Ok(())
}

} // verus!
