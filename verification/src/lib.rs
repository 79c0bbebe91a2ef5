//! Settlement engine for a payment-splitting service.
//!
//! A pooled token balance is distributed among a fixed set of recipients
//! according to fixed-point shares in basis points, a protocol fee is skimmed,
//! and recipients whose receiving account is missing or frozen have their
//! share recorded as a recoverable liability instead of failing the call.
//! Every distribution call also runs a self-healing pass that retires
//! previously recorded liabilities whenever the receiving account has become
//! usable.
//!
//! The crate is organised around plain-value records: the host environment
//! (which owns account storage, address derivation and the token ledger)
//! reads accounts into [`accounts::AccountRef`] observations, calls the
//! verified operations here, and then performs the [`execute::Transfer`]s the
//! engine hands back, atomically per call.

pub mod accounts;
pub mod constants;
pub mod errors;
pub mod execute;
pub mod lifecycle;
pub mod protocol;
pub mod state;
pub mod utils;
