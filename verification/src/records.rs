//! The record types the ledger stores: generators, energy credits, metadata.
//!
//! Account identities are plain `u64` values.  The host that drives the
//! ledger owns the mapping between its own notion of an address and these
//! identities; the ledger only compares them for equality.

use vstd::prelude::*;

verus! {

/// A registered energy producer.  Its capacity bounds how much credit can be
/// outstanding against it at any time.
#[derive(Copy, Clone, Debug, PartialEq, Eq, Structural)]
pub struct EnergyGenerator {
    /// The producer's identity; the unique key of the generator registry.
    pub address: u64,
    /// Registered capacity in kW; changed only by the admin.
    pub capacity_kw: u64,
    /// Production in kWh currently outstanding against the capacity;
    /// raised by mint, lowered by burn.
    pub current_production: u64,
    /// Whether the generator may mint; admin-controlled.
    pub is_active: bool,
    /// The ledger time at which the generator was registered.
    pub registration_date: u64,
}

/// An individually identified energy credit.  Created exclusively by mint,
/// mutated exactly once (the consumed flag flips false to true) by burn, and
/// never deleted.
#[derive(Copy, Clone, Debug, PartialEq, Eq, Structural)]
pub struct EnergyToken {
    /// The credit's unique id, drawn from the ledger's monotonic counter.
    pub id: u64,
    /// The generator the credit was minted against.
    pub generator_id: u64,
    /// The credited amount in kWh.
    pub amount_kwh: u64,
    /// The ledger time at which the credit was minted.
    pub creation_timestamp: u64,
    /// The ledger time after which the credit can no longer be burned.
    pub expiry_timestamp: u64,
    /// Whether the credit has been burned.
    pub is_consumed: bool,
}

/// The ledger's singleton metadata, as handed out to callers.
#[derive(Clone, Debug, PartialEq, Eq)]
pub struct TokenMetadata {
    /// Display name of the credit.
    pub name: String,
    /// Display symbol of the credit.
    pub symbol: String,
    /// Decimal precision of the credit.
    pub decimals: u32,
    /// Running count of credit minted and not yet burned.
    pub total_supply: u64,
}

/// `g` with its active flag set to `is_active` and nothing else touched.
pub open spec fn with_status(g: EnergyGenerator, is_active: bool) -> EnergyGenerator {
    EnergyGenerator { is_active, ..g }
}

/// `g` with its capacity set to `capacity_kw` and nothing else touched.
pub open spec fn with_capacity(g: EnergyGenerator, capacity_kw: u64) -> EnergyGenerator {
    EnergyGenerator { capacity_kw, ..g }
}

/// `g` with its outstanding production set to `current_production` and
/// nothing else touched.
pub open spec fn with_production(g: EnergyGenerator, current_production: u64) -> EnergyGenerator {
    EnergyGenerator { current_production, ..g }
}

/// `t` with its consumed flag set and nothing else touched.
pub open spec fn with_consumed(t: EnergyToken) -> EnergyToken {
    EnergyToken { is_consumed: true, ..t }
}

} // verus!
