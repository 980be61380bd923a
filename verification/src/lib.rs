//! A verified accounting ledger for a fungible energy credit.
//!
//! The ledger tracks per-account balances, spending allowances, a registry of
//! generator producers whose capacity caps how much credit can be minted
//! against them, and the mint / transfer / burn lifecycle of individually
//! identified energy credits.  Every operation is an atomic state transition:
//! it either completes fully or fails with a tagged error and no state change.
//!
//! The host that drives the ledger is expected to authenticate callers, to
//! supply the current ledger time, and to persist the state; the ledger itself
//! is a pure state machine over plain values.

pub mod allowances;
pub mod balances;
pub mod errors;
pub mod laws;
pub mod ledger;
pub mod records;
pub mod registry;

pub use errors::STRGRIDError;
pub use ledger::STRGRIDContract;
pub use records::EnergyGenerator;
pub use records::EnergyToken;
pub use records::TokenMetadata;
