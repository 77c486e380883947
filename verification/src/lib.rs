//! A minimal fungible-token ledger: balances for addressed accounts and for
//! named fund pools, moved under role-based authorization, with an append-only
//! event log that records every externally visible balance mutation.

use vstd::prelude::*;

pub mod decimal;
pub mod events;
pub mod laws;
pub mod ledger;
pub mod metadata;
pub mod store;

verus! {

/// The errors an operation can report. Every failing operation leaves the
/// ledger exactly as it was.
#[derive(Clone, Copy, Debug, PartialEq, Eq, Structural)]
pub enum LedgerError {
    AlreadyInitialized,
    NotInitialized,
    Unauthorized,
    MintDisabled,
    BurnDisabled,
    InsufficientBalance,
    InvalidMetadata,
}

} // verus!
