//! Concrete checks of the ledger's laws and of every error it can report.

use strgrid::STRGRIDContract;
use strgrid::STRGRIDError;

/// A ready-to-use ledger: admin 1, generator 2 with the given capacity.
fn ledger_with_generator(capacity_kw: u64) -> STRGRIDContract {
    let mut ledger = STRGRIDContract::new();
    ledger
        .initialize(1, "STRGRID".to_string(), "STRGRID".to_string(), 7u32)
        .unwrap();
    ledger.register_generator(1, 2, capacity_kw, 0).unwrap();
    ledger
}

#[test]
fn test_conservation_across_operations() {
    let mut ledger = ledger_with_generator(1000);
    let accounts = [2u64, 3u64, 4u64, 5u64];
    let sum_of = |l: &STRGRIDContract| -> u64 { accounts.iter().map(|a| l.balance_of(*a)).sum() };

    assert_eq!(sum_of(&ledger), ledger.total_supply());
    let token_id = ledger.mint_energy_tokens(2, 700, 24, None, 0).unwrap();
    assert_eq!(sum_of(&ledger), ledger.total_supply());
    ledger.transfer(2, 3, 250).unwrap();
    assert_eq!(sum_of(&ledger), ledger.total_supply());
    ledger.approve(3, 4, 100);
    assert_eq!(sum_of(&ledger), ledger.total_supply());
    ledger.transfer_from(4, 3, 5, 80).unwrap();
    assert_eq!(sum_of(&ledger), ledger.total_supply());
    ledger.burn_energy_tokens(5, token_id, 60, 10).unwrap();
    assert_eq!(sum_of(&ledger), ledger.total_supply());
    assert_eq!(ledger.total_supply(), 640);
}

#[test]
fn test_capacity_bound_after_mint_and_burn() {
    let mut ledger = ledger_with_generator(1000);
    let token_id = ledger.mint_energy_tokens(2, 900, 24, None, 0).unwrap();
    let g = ledger.get_generator(2).unwrap();
    assert!(g.current_production <= g.capacity_kw);
    assert_eq!(g.current_production, 900);

    ledger.burn_energy_tokens(2, token_id, 400, 0).unwrap();
    let g = ledger.get_generator(2).unwrap();
    assert!(g.current_production <= g.capacity_kw);
    assert_eq!(g.current_production, 500);
}

#[test]
fn test_transfer_failure_leaves_state_unchanged() {
    let mut ledger = ledger_with_generator(1000);
    ledger.mint_energy_tokens(2, 500, 24, None, 0).unwrap();

    let r = ledger.transfer(2, 3, 501);
    assert_eq!(r, Err(STRGRIDError::InsufficientBalance));
    assert_eq!(ledger.balance_of(2), 500);
    assert_eq!(ledger.balance_of(3), 0);
    assert_eq!(ledger.total_supply(), 500);
}

#[test]
fn test_transfer_zero_amount_rejected() {
    let mut ledger = ledger_with_generator(1000);
    ledger.mint_energy_tokens(2, 500, 24, None, 0).unwrap();

    assert_eq!(ledger.transfer(2, 3, 0), Err(STRGRIDError::InvalidAmount));
    assert_eq!(
        ledger.transfer_from(4, 2, 3, 0),
        Err(STRGRIDError::InvalidAmount)
    );
}

#[test]
fn test_self_transfer_keeps_balance() {
    let mut ledger = ledger_with_generator(1000);
    ledger.mint_energy_tokens(2, 500, 24, None, 0).unwrap();

    ledger.transfer(2, 2, 200).unwrap();
    assert_eq!(ledger.balance_of(2), 500);
    assert_eq!(ledger.total_supply(), 500);
}

#[test]
fn test_approve_overwrites_and_revokes() {
    let mut ledger = ledger_with_generator(1000);

    ledger.approve(3, 4, 200);
    assert_eq!(ledger.allowance(3, 4), 200);
    ledger.approve(3, 4, 50);
    assert_eq!(ledger.allowance(3, 4), 50);
    ledger.approve(3, 4, 0);
    assert_eq!(ledger.allowance(3, 4), 0);
}

#[test]
fn test_allowance_spend_down_exact() {
    let mut ledger = ledger_with_generator(1000);
    ledger.mint_energy_tokens(2, 500, 24, None, 0).unwrap();

    ledger.approve(2, 4, 300);
    ledger.transfer_from(4, 2, 5, 120).unwrap();
    assert_eq!(ledger.allowance(2, 4), 180);
    assert_eq!(ledger.balance_of(2), 380);
    assert_eq!(ledger.balance_of(5), 120);
}

#[test]
fn test_transfer_from_insufficient_balance() {
    let mut ledger = ledger_with_generator(1000);
    ledger.mint_energy_tokens(2, 100, 24, None, 0).unwrap();

    // The allowance may exceed the owner's balance; the spend still fails
    ledger.approve(2, 4, 500);
    let r = ledger.transfer_from(4, 2, 5, 200);
    assert_eq!(r, Err(STRGRIDError::InsufficientBalance));
    assert_eq!(ledger.allowance(2, 4), 500);
    assert_eq!(ledger.balance_of(2), 100);
}

#[test]
fn test_initialize_twice_rejected() {
    let mut ledger = STRGRIDContract::new();
    ledger
        .initialize(1, "STRGRID".to_string(), "STRGRID".to_string(), 7u32)
        .unwrap();

    let r = ledger.initialize(9, "OTHER".to_string(), "OTH".to_string(), 2u32);
    assert_eq!(r, Err(STRGRIDError::AlreadyInitialized));
    let metadata = ledger.get_metadata().unwrap();
    assert_eq!(metadata.name, "STRGRID");
    assert_eq!(metadata.decimals, 7u32);
}

#[test]
fn test_admin_operations_before_initialize() {
    let mut ledger = STRGRIDContract::new();

    assert_eq!(
        ledger.register_generator(1, 2, 1000, 0),
        Err(STRGRIDError::NotInitialized)
    );
    assert_eq!(
        ledger.set_generator_status(1, 2, false),
        Err(STRGRIDError::NotInitialized)
    );
    assert_eq!(
        ledger.update_generator_capacity(1, 2, 500),
        Err(STRGRIDError::NotInitialized)
    );
    assert_eq!(ledger.get_metadata(), Err(STRGRIDError::NotInitialized));
}

#[test]
fn test_admin_operations_need_the_admin() {
    let mut ledger = ledger_with_generator(1000);
    let intruder = 9u64;

    assert_eq!(
        ledger.register_generator(intruder, 7, 1000, 0),
        Err(STRGRIDError::NotAuthorized)
    );
    assert_eq!(
        ledger.set_generator_status(intruder, 2, false),
        Err(STRGRIDError::NotAuthorized)
    );
    assert_eq!(
        ledger.update_generator_capacity(intruder, 2, 1),
        Err(STRGRIDError::NotAuthorized)
    );
    // nothing was let through
    assert_eq!(ledger.get_generator(2).unwrap().capacity_kw, 1000);
    assert_eq!(ledger.get_generator(2).unwrap().is_active, true);
}

#[test]
fn test_register_zero_capacity_rejected() {
    let mut ledger = STRGRIDContract::new();
    ledger
        .initialize(1, "STRGRID".to_string(), "STRGRID".to_string(), 7u32)
        .unwrap();

    let r = ledger.register_generator(1, 2, 0, 0);
    assert_eq!(r, Err(STRGRIDError::InvalidAmount));
    assert_eq!(
        ledger.get_generator(2),
        Err(STRGRIDError::GeneratorNotFound)
    );
}

#[test]
fn test_mint_unregistered_generator() {
    let mut ledger = ledger_with_generator(1000);

    let r = ledger.mint_energy_tokens(7, 100, 24, None, 0);
    assert_eq!(r, Err(STRGRIDError::GeneratorNotFound));
}

#[test]
fn test_mint_inactive_generator() {
    let mut ledger = ledger_with_generator(1000);
    ledger.set_generator_status(1, 2, false).unwrap();

    let r = ledger.mint_energy_tokens(2, 100, 24, None, 0);
    assert_eq!(r, Err(STRGRIDError::GeneratorInactive));

    ledger.set_generator_status(1, 2, true).unwrap();
    assert!(ledger.mint_energy_tokens(2, 100, 24, None, 0).is_ok());
}

#[test]
fn test_mint_ids_are_fresh_and_monotonic() {
    let mut ledger = ledger_with_generator(1000);

    let first = ledger.mint_energy_tokens(2, 100, 24, None, 50).unwrap();
    let second = ledger.mint_energy_tokens(2, 100, 24, None, 50).unwrap();
    assert!(second > first);
    assert_eq!(ledger.get_energy_token(first).unwrap().amount_kwh, 100);
    assert_eq!(ledger.get_energy_token(second).unwrap().amount_kwh, 100);
}

#[test]
fn test_mint_expiry_computed_from_now() {
    let mut ledger = ledger_with_generator(1000);

    let token_id = ledger.mint_energy_tokens(2, 100, 24, None, 100).unwrap();
    let token = ledger.get_energy_token(token_id).unwrap();
    assert_eq!(token.creation_timestamp, 100);
    assert_eq!(token.expiry_timestamp, 100 + 24 * 3600);
}

#[test]
fn test_burn_unknown_token() {
    let mut ledger = ledger_with_generator(1000);
    ledger.mint_energy_tokens(2, 500, 24, None, 0).unwrap();

    let r = ledger.burn_energy_tokens(2, 77, 100, 0);
    assert_eq!(r, Err(STRGRIDError::TokenNotFound));
    assert_eq!(
        ledger.get_energy_token(77),
        Err(STRGRIDError::TokenNotFound)
    );
}

#[test]
fn test_burn_expired_token() {
    let mut ledger = ledger_with_generator(1000);
    // expires at 3600
    let token_id = ledger.mint_energy_tokens(2, 500, 1, None, 0).unwrap();

    // one past the expiry the credit reads as gone
    let r = ledger.burn_energy_tokens(2, token_id, 100, 3601);
    assert_eq!(r, Err(STRGRIDError::TokenNotFound));
    assert_eq!(ledger.balance_of(2), 500);

    // the record itself stays queryable
    assert!(ledger.get_energy_token(token_id).is_ok());

    // at the expiry instant itself the burn still goes through
    ledger.burn_energy_tokens(2, token_id, 100, 3600).unwrap();
    assert_eq!(ledger.balance_of(2), 400);
}

#[test]
fn test_burn_insufficient_balance() {
    let mut ledger = ledger_with_generator(1000);
    let token_id = ledger.mint_energy_tokens(2, 500, 24, None, 0).unwrap();
    ledger.transfer(2, 3, 50).unwrap();

    // account 3 holds 50, not 100
    let r = ledger.burn_energy_tokens(3, token_id, 100, 0);
    assert_eq!(r, Err(STRGRIDError::InsufficientBalance));
    assert_eq!(ledger.balance_of(3), 50);
    assert_eq!(ledger.get_energy_token(token_id).unwrap().is_consumed, false);
}

#[test]
fn test_burn_beyond_outstanding_production_rejected() {
    let mut ledger = ledger_with_generator(1000);
    let token_id = ledger.mint_energy_tokens(2, 500, 24, None, 0).unwrap();
    ledger.transfer(2, 3, 500).unwrap();

    // re-registration resets the generator's outstanding production to zero,
    // so this burn would push it below zero: rejected instead of wrapping
    ledger.register_generator(1, 2, 1000, 5).unwrap();
    let r = ledger.burn_energy_tokens(3, token_id, 200, 10);
    assert_eq!(r, Err(STRGRIDError::InvalidAmount));
    assert_eq!(ledger.balance_of(3), 500);
    assert_eq!(ledger.get_energy_token(token_id).unwrap().is_consumed, false);
}

#[test]
fn test_reregistration_resets_production() {
    let mut ledger = ledger_with_generator(1000);
    ledger.mint_energy_tokens(2, 400, 24, None, 0).unwrap();
    assert_eq!(ledger.get_generator(2).unwrap().current_production, 400);

    ledger.register_generator(1, 2, 2000, 9).unwrap();
    let g = ledger.get_generator(2).unwrap();
    assert_eq!(g.capacity_kw, 2000);
    assert_eq!(g.current_production, 0);
    assert_eq!(g.registration_date, 9);
    // the supply minted before the reset is untouched
    assert_eq!(ledger.total_supply(), 400);
}

#[test]
fn test_capacity_lowered_below_production() {
    let mut ledger = ledger_with_generator(1000);
    ledger.mint_energy_tokens(2, 500, 24, None, 0).unwrap();

    // the admin may lower the capacity below the outstanding production
    ledger.update_generator_capacity(1, 2, 100).unwrap();
    let g = ledger.get_generator(2).unwrap();
    assert_eq!(g.capacity_kw, 100);
    assert_eq!(g.current_production, 500);

    // further minting fails until enough credit is burned
    let r = ledger.mint_energy_tokens(2, 1, 24, None, 0);
    assert_eq!(r, Err(STRGRIDError::InsufficientCapacity));
}

#[test]
fn test_partial_burn_consumes_credit_in_full() {
    let mut ledger = ledger_with_generator(1000);
    let token_id = ledger.mint_energy_tokens(2, 500, 24, None, 0).unwrap();

    // burning a part of the credited amount still consumes the credit
    ledger.burn_energy_tokens(2, token_id, 100, 0).unwrap();
    assert_eq!(ledger.get_energy_token(token_id).unwrap().is_consumed, true);

    let r = ledger.burn_energy_tokens(2, token_id, 100, 0);
    assert_eq!(r, Err(STRGRIDError::AlreadyBurned));
    assert_eq!(ledger.balance_of(2), 400);
    assert_eq!(ledger.total_supply(), 400);
}

#[test]
fn test_queries_on_fresh_ledger() {
    let ledger = STRGRIDContract::new();

    assert_eq!(ledger.balance_of(3), 0);
    assert_eq!(ledger.allowance(3, 4), 0);
    assert_eq!(ledger.total_supply(), 0);
    assert_eq!(
        ledger.get_generator(2),
        Err(STRGRIDError::GeneratorNotFound)
    );
    assert_eq!(ledger.get_energy_token(0), Err(STRGRIDError::TokenNotFound));
}
