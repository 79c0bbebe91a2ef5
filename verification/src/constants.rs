//! Fee and recipient-set limits shared by validation and distribution.

use vstd::prelude::*;

verus! {

/// Protocol fee share, in basis points (1%).
pub const PROTOCOL_FEE_BPS: u16 = 100;

/// Recipient shares must total exactly 99% (the remaining 1% is the fee).
pub const REQUIRED_SPLIT_TOTAL: u16 = 9900;

/// Denominator of the basis-point scale.
pub const BPS_DENOMINATOR: u64 = 10000;

/// Smallest admissible recipient set.
pub const MIN_RECIPIENTS: usize = 1;

/// Largest admissible recipient set.
pub const MAX_RECIPIENTS: usize = 20;

} // verus!
