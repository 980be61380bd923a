//! The error taxonomy of the ledger.

use vstd::prelude::*;

verus! {

/// Every way a ledger operation can fail.  A failing operation performs no
/// state mutation at all; the error is surfaced verbatim to the caller.
#[derive(Copy, Clone, Debug, PartialEq, Eq, Structural)]
pub enum STRGRIDError {
    /// The caller is not the principal that the operation requires.
    NotAuthorized,
    /// The ledger has no stored admin or metadata yet.
    NotInitialized,
    /// The ledger metadata already exists; it is created exactly once.
    AlreadyInitialized,
    /// A zero or otherwise disallowed quantity was supplied.
    InvalidAmount,
    /// The debited account holds less than the requested amount.
    InsufficientBalance,
    /// The generator is not registered.
    GeneratorNotFound,
    /// The generator is registered but currently inactive.
    GeneratorInactive,
    /// Minting the requested amount would push the generator's outstanding
    /// production over its registered capacity.
    InsufficientCapacity,
    /// The credit id is unknown, or the credit is past its expiry time (the
    /// two conditions share this one error).
    TokenNotFound,
    /// The stored allowance is less than the requested spend.
    InsufficientAllowance,
    /// The credit's consumed flag is already set.
    AlreadyBurned,
}

} // verus!
