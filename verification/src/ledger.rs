//! The ledger itself: one sequential state machine over plain values.
//!
//! Every operation is atomic: it either completes fully, or returns an error
//! and leaves the state exactly as it was.  The host that drives the ledger
//! is responsible for authenticating principals before calling; an
//! operation that only a given principal may perform takes the
//! authenticated caller as a plain argument and compares it to that
//! principal.

use vstd::prelude::*;

use crate::allowances::alw_keys_unique;
use crate::allowances::alw_lookup;
use crate::allowances::alw_of;
use crate::allowances::alw_store;
use crate::balances::bal_keys_unique;
use crate::balances::bal_lookup;
use crate::balances::bal_of;
use crate::balances::bal_store;
use crate::balances::lemma_bal_le_sum;
use crate::balances::sum_amounts;
use crate::errors::STRGRIDError;
use crate::records::EnergyGenerator;
use crate::records::EnergyToken;
use crate::records::TokenMetadata;
use crate::records::with_capacity;
use crate::records::with_consumed;
use crate::records::with_production;
use crate::records::with_status;
use crate::registry::all_within_capacity;
use crate::registry::gen_keys_unique;
use crate::registry::gen_lookup;
use crate::registry::lemma_gen_of_mem;
use crate::registry::lemma_tok_at_index;
use crate::registry::lemma_tok_of_mem;
use crate::registry::lemma_tok_push;
use crate::registry::gen_of;
use crate::registry::gen_store;
use crate::registry::tok_keys_unique;
use crate::registry::tok_lookup;
use crate::registry::tok_of;
use crate::registry::tok_store;

verus! {

/// The full ledger state.
///
/// `wf` is its well-formedness invariant: `new` establishes it and every
/// operation preserves it.  In particular the conservation law — the sum of
/// all balances equals the running total supply — is part of `wf`, so it
/// holds after every operation.
pub struct STRGRIDContract {
    /// The admin identity; `None` until `initialize` has run.
    pub admin: Option<u64>,
    /// Display name of the credit; set by `initialize`.
    pub name: String,
    /// Display symbol of the credit; set by `initialize`.
    pub symbol: String,
    /// Decimal precision of the credit; set by `initialize`.
    pub decimals: u32,
    /// Running count of credit minted and not yet burned.
    pub total_supply: u64,
    /// The id the next minted credit will take; ids are never reused.
    pub next_token_id: u64,
    /// Account balances: (account, amount), each account at most once.
    pub balances: Vec<(u64, u64)>,
    /// Allowances: (owner, spender, amount), each pair at most once.
    pub allowances: Vec<(u64, u64, u64)>,
    /// The generator registry, each address at most once.
    pub generators: Vec<EnergyGenerator>,
    /// The credit registry, each id at most once; credits are never deleted.
    pub credits: Vec<EnergyToken>,
}

impl STRGRIDContract {
    /// Well-formedness: unique keys in every table, conservation of supply,
    /// fresh credit ids below the id counter, every credit's generator still
    /// registered, and nothing minted before initialization.
    pub open spec fn wf(self) -> bool {
        &&& bal_keys_unique(self.balances@)
        &&& alw_keys_unique(self.allowances@)
        &&& gen_keys_unique(self.generators@)
        &&& tok_keys_unique(self.credits@)
        &&& sum_amounts(self.balances@) == self.total_supply
        &&& forall|id: u64|
            #![trigger tok_of(self.credits@, id)]
            tok_of(self.credits@, id) is Some ==> id < self.next_token_id
        &&& forall|id: u64|
            #![trigger tok_of(self.credits@, id)]
            tok_of(self.credits@, id) is Some ==> gen_of(
                self.generators@,
                tok_of(self.credits@, id).unwrap().generator_id,
            ) is Some
        &&& (self.admin is None ==> self.total_supply == 0 && self.balances@.len() == 0
            && self.generators@.len() == 0 && self.credits@.len() == 0)
    }

    /// Whether `initialize` has run.
    pub open spec fn spec_initialized(self) -> bool {
        self.admin is Some
    }

    /// The balance of `account`, zero for an unknown account.
    pub open spec fn spec_balance_of(self, account: u64) -> u64 {
        bal_of(self.balances@, account)
    }

    /// The allowance `owner` has granted `spender`, zero when none is stored.
    pub open spec fn spec_allowance(self, owner: u64, spender: u64) -> u64 {
        alw_of(self.allowances@, owner, spender)
    }

    /// The generator registered under `generator`, when there is one.
    pub open spec fn spec_generator(self, generator: u64) -> Option<EnergyGenerator> {
        gen_of(self.generators@, generator)
    }

    /// The credit recorded under `token_id`, when there is one.
    pub open spec fn spec_credit(self, token_id: u64) -> Option<EnergyToken> {
        tok_of(self.credits@, token_id)
    }

    /// The metadata fields are those of `pre`.
    pub open spec fn meta_same(pre: Self, post: Self) -> bool {
        &&& post.admin == pre.admin
        &&& post.name@ == pre.name@
        &&& post.symbol@ == pre.symbol@
        &&& post.decimals == pre.decimals
    }

    /// `post` is observably the very state `pre`: what every failing
    /// operation guarantees.
    pub open spec fn same_state(pre: Self, post: Self) -> bool {
        &&& Self::meta_same(pre, post)
        &&& post.total_supply == pre.total_supply
        &&& post.next_token_id == pre.next_token_id
        &&& post.balances@ == pre.balances@
        &&& post.allowances@ == pre.allowances@
        &&& post.generators@ == pre.generators@
        &&& post.credits@ == pre.credits@
    }

    /// A fresh, uninitialized ledger: no admin, no metadata, no balances,
    /// no generators, no credits, zero supply.
    pub fn new() -> (r: Self)
        ensures
            r.wf(),
            !r.spec_initialized(),
            r.total_supply == 0,
            r.next_token_id == 0,
            r.balances@.len() == 0,
            r.allowances@.len() == 0,
            r.generators@.len() == 0,
            r.credits@.len() == 0,
    {
        STRGRIDContract {
            admin: None,
            name: String::new(),
            symbol: String::new(),
            decimals: 0,
            total_supply: 0,
            next_token_id: 0,
            balances: Vec::new(),
            allowances: Vec::new(),
            generators: Vec::new(),
            credits: Vec::new(),
        }
    }

    /// Why `initialize` fails on `pre`, or `None` when it succeeds.
    pub open spec fn initialize_err(pre: Self) -> Option<STRGRIDError> {
        if pre.spec_initialized() {
            Some(STRGRIDError::AlreadyInitialized)
        } else {
            None
        }
    }

    /// The successful `initialize` transition.
    pub open spec fn initialize_post(
        pre: Self,
        post: Self,
        admin: u64,
        name: Seq<char>,
        symbol: Seq<char>,
        decimals: u32,
    ) -> bool {
        &&& post.admin == Some(admin)
        &&& post.name@ == name
        &&& post.symbol@ == symbol
        &&& post.decimals == decimals
        &&& post.total_supply == 0
        &&& post.next_token_id == pre.next_token_id
        &&& post.balances@ == pre.balances@
        &&& post.allowances@ == pre.allowances@
        &&& post.generators@ == pre.generators@
        &&& post.credits@ == pre.credits@
    }

    /// Stores the admin identity and the token metadata, with a total supply
    /// of zero.  Succeeds exactly once per ledger lifetime.  The host must
    /// have authenticated the caller as `admin`.
    pub fn initialize(
        &mut self,
        admin: u64,
        name: String,
        symbol: String,
        decimals: u32,
    ) -> (r: Result<(), STRGRIDError>)
        requires
            old(self).wf(),
        ensures
            final(self).wf(),
            (match r {
                Ok(()) => Self::initialize_err(*old(self)) is None && Self::initialize_post(
                    *old(self),
                    *final(self),
                    admin,
                    name@,
                    symbol@,
                    decimals,
                ),
                Err(e) => Self::initialize_err(*old(self)) == Some(e) && Self::same_state(
                    *old(self),
                    *final(self),
                ),
            }),
    {
        match self.admin {
            Some(_) => Err(STRGRIDError::AlreadyInitialized),
            None => {
                self.admin = Some(admin);
                self.name = name;
                self.symbol = symbol;
                self.decimals = decimals;
                self.total_supply = 0;
                Ok(())
            },
        }
    }

    /// The `approve` transition: the allowance is overwritten, not
    /// accumulated, and everything else stays.
    pub open spec fn approve_post(
        pre: Self,
        post: Self,
        owner: u64,
        spender: u64,
        amount: u64,
    ) -> bool {
        &&& post.spec_allowance(owner, spender) == amount
        &&& forall|o: u64, p: u64|
            !(o == owner && p == spender) ==> post.spec_allowance(o, p) == pre.spec_allowance(o, p)
        &&& post.balances@ == pre.balances@
        &&& post.generators@ == pre.generators@
        &&& post.credits@ == pre.credits@
        &&& post.total_supply == pre.total_supply
        &&& post.next_token_id == pre.next_token_id
        &&& Self::meta_same(pre, post)
    }

    /// Sets the allowance `owner` grants `spender` to exactly `amount`; an
    /// amount of zero revokes it.  The host must have authenticated the
    /// caller as `owner`.
    pub fn approve(&mut self, owner: u64, spender: u64, amount: u64)
        requires
            old(self).wf(),
        ensures
            final(self).wf(),
            Self::approve_post(*old(self), *final(self), owner, spender, amount),
    {
        alw_store(&mut self.allowances, owner, spender, amount);
    }

    /// Why an admin-only operation fails its authorization on `pre` when
    /// the authenticated caller is `caller`, or `None` when it may proceed.
    pub open spec fn admin_auth_err(pre: Self, caller: u64) -> Option<STRGRIDError> {
        if pre.admin is None {
            Some(STRGRIDError::NotInitialized)
        } else if pre.admin != Some(caller) {
            Some(STRGRIDError::NotAuthorized)
        } else {
            None
        }
    }

    /// Why `register_generator` fails on `pre`, or `None` when it succeeds.
    pub open spec fn register_generator_err(pre: Self, caller: u64, capacity_kw: u64) -> Option<
        STRGRIDError,
    > {
        if Self::admin_auth_err(pre, caller) is Some {
            Self::admin_auth_err(pre, caller)
        } else if capacity_kw == 0 {
            Some(STRGRIDError::InvalidAmount)
        } else {
            None
        }
    }

    /// The record a successful registration stores: zero outstanding
    /// production, active, stamped with the registration time.
    pub open spec fn registered_generator(
        generator: u64,
        capacity_kw: u64,
        now: u64,
    ) -> EnergyGenerator {
        EnergyGenerator {
            address: generator,
            capacity_kw,
            current_production: 0,
            is_active: true,
            registration_date: now,
        }
    }

    /// The registry holds `g` under `generator` and is otherwise that of
    /// `pre`.
    pub open spec fn generators_replaced(
        pre: Self,
        post: Self,
        generator: u64,
        g: EnergyGenerator,
    ) -> bool {
        &&& post.spec_generator(generator) == Some(g)
        &&& forall|a: u64| a != generator ==> post.spec_generator(a) == pre.spec_generator(a)
    }

    /// Everything but the generator registry is that of `pre`.
    pub open spec fn only_generators_touched(pre: Self, post: Self) -> bool {
        &&& post.balances@ == pre.balances@
        &&& post.allowances@ == pre.allowances@
        &&& post.credits@ == pre.credits@
        &&& post.total_supply == pre.total_supply
        &&& post.next_token_id == pre.next_token_id
        &&& Self::meta_same(pre, post)
    }

    /// Registers (or re-registers) a generator.  Admin-only; the host must
    /// have authenticated the caller as `caller`, and `now` is the current
    /// ledger time.  Re-registration overwrites the record, deliberately
    /// resetting its outstanding production to zero.
    pub fn register_generator(&mut self, caller: u64, generator: u64, capacity_kw: u64, now: u64) -> (r:
        Result<(), STRGRIDError>)
        requires
            old(self).wf(),
        ensures
            final(self).wf(),
            (match r {
                Ok(()) => Self::register_generator_err(*old(self), caller, capacity_kw) is None
                    && Self::generators_replaced(
                    *old(self),
                    *final(self),
                    generator,
                    Self::registered_generator(generator, capacity_kw, now),
                ) && Self::only_generators_touched(*old(self), *final(self)),
                Err(e) => Self::register_generator_err(*old(self), caller, capacity_kw) == Some(e)
                    && Self::same_state(*old(self), *final(self)),
            }),
    {
        let admin = match self.admin {
            Some(a) => a,
            None => return Err(STRGRIDError::NotInitialized),
        };
        if caller != admin {
            return Err(STRGRIDError::NotAuthorized);
        }
        if capacity_kw == 0 {
            return Err(STRGRIDError::InvalidAmount);
        }
        let g = EnergyGenerator {
            address: generator,
            capacity_kw,
            current_production: 0,
            is_active: true,
            registration_date: now,
        };
        gen_store(&mut self.generators, g);
        Ok(())
    }

    /// Why `set_generator_status` or `update_generator_capacity` fails on
    /// `pre`, or `None` when it succeeds.
    pub open spec fn generator_admin_err(pre: Self, caller: u64, generator: u64) -> Option<
        STRGRIDError,
    > {
        if Self::admin_auth_err(pre, caller) is Some {
            Self::admin_auth_err(pre, caller)
        } else if pre.spec_generator(generator) is None {
            Some(STRGRIDError::GeneratorNotFound)
        } else {
            None
        }
    }

    /// Flips a generator's active flag without touching its production or
    /// capacity.  Admin-only; the host must have authenticated the caller as
    /// `caller`.
    pub fn set_generator_status(&mut self, caller: u64, generator: u64, is_active: bool) -> (r:
        Result<(), STRGRIDError>)
        requires
            old(self).wf(),
        ensures
            final(self).wf(),
            (match r {
                Ok(()) => Self::generator_admin_err(*old(self), caller, generator) is None
                    && Self::generators_replaced(
                    *old(self),
                    *final(self),
                    generator,
                    with_status(old(self).spec_generator(generator).unwrap(), is_active),
                ) && Self::only_generators_touched(*old(self), *final(self)),
                Err(e) => Self::generator_admin_err(*old(self), caller, generator) == Some(e)
                    && Self::same_state(*old(self), *final(self)),
            }),
    {
        let admin = match self.admin {
            Some(a) => a,
            None => return Err(STRGRIDError::NotInitialized),
        };
        if caller != admin {
            return Err(STRGRIDError::NotAuthorized);
        }
        let g = match gen_lookup(&self.generators, generator) {
            Some(g) => g,
            None => return Err(STRGRIDError::GeneratorNotFound),
        };
        proof {
            lemma_gen_of_mem(self.generators@, generator);
        }
        let mut updated = g;
        updated.is_active = is_active;
        gen_store(&mut self.generators, updated);
        Ok(())
    }

    /// Sets a generator's capacity unconditionally.  Admin-only; the host
    /// must have authenticated the caller as `caller`.  The capacity may
    /// deliberately be lowered below the production already outstanding;
    /// further minting then fails until enough credit is burned.
    pub fn update_generator_capacity(&mut self, caller: u64, generator: u64, new_capacity_kw: u64) -> (r:
        Result<(), STRGRIDError>)
        requires
            old(self).wf(),
        ensures
            final(self).wf(),
            (match r {
                Ok(()) => Self::generator_admin_err(*old(self), caller, generator) is None
                    && Self::generators_replaced(
                    *old(self),
                    *final(self),
                    generator,
                    with_capacity(old(self).spec_generator(generator).unwrap(), new_capacity_kw),
                ) && Self::only_generators_touched(*old(self), *final(self)),
                Err(e) => Self::generator_admin_err(*old(self), caller, generator) == Some(e)
                    && Self::same_state(*old(self), *final(self)),
            }),
    {
        let admin = match self.admin {
            Some(a) => a,
            None => return Err(STRGRIDError::NotInitialized),
        };
        if caller != admin {
            return Err(STRGRIDError::NotAuthorized);
        }
        let g = match gen_lookup(&self.generators, generator) {
            Some(g) => g,
            None => return Err(STRGRIDError::GeneratorNotFound),
        };
        proof {
            lemma_gen_of_mem(self.generators@, generator);
        }
        let mut updated = g;
        updated.capacity_kw = new_capacity_kw;
        gen_store(&mut self.generators, updated);
        Ok(())
    }

    /// Why `transfer` fails on `pre`, or `None` when it succeeds.
    pub open spec fn transfer_err(pre: Self, from: u64, to: u64, amount: u64) -> Option<
        STRGRIDError,
    > {
        if amount == 0 {
            Some(STRGRIDError::InvalidAmount)
        } else if pre.spec_balance_of(from) < amount {
            Some(STRGRIDError::InsufficientBalance)
        } else {
            None
        }
    }

    /// `amount` moved from `from` to `to`, every other account untouched.
    /// For `from == to` this says: every balance is unchanged.
    pub open spec fn balances_moved(
        pre: Self,
        post: Self,
        from: u64,
        to: u64,
        amount: u64,
    ) -> bool {
        forall|a: u64|
            #![trigger post.spec_balance_of(a)]
            post.spec_balance_of(a) as int == pre.spec_balance_of(a) as int - (if a == from {
                amount as int
            } else {
                0
            }) + (if a == to {
                amount as int
            } else {
                0
            })
    }

    /// The successful `transfer` transition: balances move, nothing else.
    pub open spec fn transfer_post(pre: Self, post: Self, from: u64, to: u64, amount: u64) -> bool {
        &&& Self::balances_moved(pre, post, from, to, amount)
        &&& post.total_supply == pre.total_supply
        &&& post.allowances@ == pre.allowances@
        &&& post.generators@ == pre.generators@
        &&& post.credits@ == pre.credits@
        &&& post.next_token_id == pre.next_token_id
        &&& Self::meta_same(pre, post)
    }

    /// Debits `from` and credits `to` by the same `amount`, atomically.  A
    /// transfer to oneself leaves every balance as it was.  The host must
    /// have authenticated the caller as `from`.
    pub fn transfer(&mut self, from: u64, to: u64, amount: u64) -> (r: Result<(), STRGRIDError>)
        requires
            old(self).wf(),
        ensures
            final(self).wf(),
            (match r {
                Ok(()) => Self::transfer_err(*old(self), from, to, amount) is None
                    && Self::transfer_post(*old(self), *final(self), from, to, amount),
                Err(e) => Self::transfer_err(*old(self), from, to, amount) == Some(e)
                    && Self::same_state(*old(self), *final(self)),
            }),
    {
        if amount == 0 {
            return Err(STRGRIDError::InvalidAmount);
        }
        let from_balance = bal_lookup(&self.balances, from);
        if from_balance < amount {
            return Err(STRGRIDError::InsufficientBalance);
        }
        if from != to {
            bal_store(&mut self.balances, from, from_balance - amount);
            let to_balance = bal_lookup(&self.balances, to);
            proof {
                lemma_bal_le_sum(self.balances@, to);
            }
            bal_store(&mut self.balances, to, to_balance + amount);
        }
        Ok(())
    }

    /// Why `transfer_from` fails on `pre`, or `None` when it succeeds.
    pub open spec fn transfer_from_err(
        pre: Self,
        spender: u64,
        from: u64,
        to: u64,
        amount: u64,
    ) -> Option<STRGRIDError> {
        if amount == 0 {
            Some(STRGRIDError::InvalidAmount)
        } else if pre.spec_allowance(from, spender) < amount {
            Some(STRGRIDError::InsufficientAllowance)
        } else if pre.spec_balance_of(from) < amount {
            Some(STRGRIDError::InsufficientBalance)
        } else {
            None
        }
    }

    /// The successful `transfer_from` transition: balances move as in
    /// `transfer` and the spent allowance is debited by the same amount.
    pub open spec fn transfer_from_post(
        pre: Self,
        post: Self,
        spender: u64,
        from: u64,
        to: u64,
        amount: u64,
    ) -> bool {
        &&& Self::balances_moved(pre, post, from, to, amount)
        &&& post.spec_allowance(from, spender) as int == pre.spec_allowance(from, spender)
            - amount
        &&& forall|o: u64, p: u64|
            !(o == from && p == spender) ==> post.spec_allowance(o, p) == pre.spec_allowance(o, p)
        &&& post.total_supply == pre.total_supply
        &&& post.generators@ == pre.generators@
        &&& post.credits@ == pre.credits@
        &&& post.next_token_id == pre.next_token_id
        &&& Self::meta_same(pre, post)
    }

    /// Spends part of the allowance `from` granted `spender`: debits the
    /// allowance and moves `amount` from `from` to `to`, atomically.  The
    /// host must have authenticated the caller as `spender`.
    pub fn transfer_from(&mut self, spender: u64, from: u64, to: u64, amount: u64) -> (r: Result<
        (),
        STRGRIDError,
    >)
        requires
            old(self).wf(),
        ensures
            final(self).wf(),
            (match r {
                Ok(()) => Self::transfer_from_err(*old(self), spender, from, to, amount) is None
                    && Self::transfer_from_post(*old(self), *final(self), spender, from, to, amount),
                Err(e) => Self::transfer_from_err(*old(self), spender, from, to, amount) == Some(e)
                    && Self::same_state(*old(self), *final(self)),
            }),
    {
        if amount == 0 {
            return Err(STRGRIDError::InvalidAmount);
        }
        let current_allowance = alw_lookup(&self.allowances, from, spender);
        if current_allowance < amount {
            return Err(STRGRIDError::InsufficientAllowance);
        }
        let from_balance = bal_lookup(&self.balances, from);
        if from_balance < amount {
            return Err(STRGRIDError::InsufficientBalance);
        }
        if from != to {
            bal_store(&mut self.balances, from, from_balance - amount);
            let to_balance = bal_lookup(&self.balances, to);
            proof {
                lemma_bal_le_sum(self.balances@, to);
            }
            bal_store(&mut self.balances, to, to_balance + amount);
        }
        alw_store(&mut self.allowances, from, spender, current_allowance - amount);
        Ok(())
    }

    /// The arithmetic a successful mint must not overflow: the new supply,
    /// the expiry offset and timestamp, and the credit id counter.
    pub open spec fn mint_overflows(pre: Self, amount: u64, expiry_hours: u64, now: u64) -> bool {
        ||| pre.total_supply + amount > u64::MAX
        ||| expiry_hours * 3600 > u64::MAX
        ||| now + expiry_hours * 3600 > u64::MAX
        ||| pre.next_token_id == u64::MAX
    }

    /// Why `mint_energy_tokens` fails on `pre`, or `None` when it succeeds.
    pub open spec fn mint_err(
        pre: Self,
        generator: u64,
        amount: u64,
        expiry_hours: u64,
        now: u64,
    ) -> Option<STRGRIDError> {
        if pre.spec_generator(generator) is None {
            Some(STRGRIDError::GeneratorNotFound)
        } else if !pre.spec_generator(generator).unwrap().is_active {
            Some(STRGRIDError::GeneratorInactive)
        } else if pre.spec_generator(generator).unwrap().current_production + amount
            > pre.spec_generator(generator).unwrap().capacity_kw {
            Some(STRGRIDError::InsufficientCapacity)
        } else if Self::mint_overflows(pre, amount, expiry_hours, now) {
            Some(STRGRIDError::InvalidAmount)
        } else {
            None
        }
    }

    /// The credit a successful mint records: the next id off the counter,
    /// created now, expiring `expiry_hours` hours from now, not consumed.
    pub open spec fn minted_token(
        pre: Self,
        generator: u64,
        amount: u64,
        expiry_hours: u64,
        now: u64,
    ) -> EnergyToken {
        EnergyToken {
            id: pre.next_token_id,
            generator_id: generator,
            amount_kwh: amount,
            creation_timestamp: now,
            expiry_timestamp: (now + expiry_hours * 3600) as u64,
            is_consumed: false,
        }
    }

    /// The successful mint transition: the credit is recorded under the
    /// returned id, the generator's outstanding production, the generator's
    /// own balance and the total supply all grow by the minted amount, and
    /// nothing else moves.
    pub open spec fn mint_post(
        pre: Self,
        post: Self,
        generator: u64,
        amount: u64,
        expiry_hours: u64,
        now: u64,
        token_id: u64,
    ) -> bool {
        let g = pre.spec_generator(generator).unwrap();
        &&& token_id == pre.next_token_id
        &&& post.next_token_id as int == pre.next_token_id + 1
        &&& post.spec_credit(token_id) == Some(
            Self::minted_token(pre, generator, amount, expiry_hours, now),
        )
        &&& forall|id: u64| id != token_id ==> post.spec_credit(id) == pre.spec_credit(id)
        &&& Self::generators_replaced(
            pre,
            post,
            generator,
            with_production(g, (g.current_production + amount) as u64),
        )
        &&& post.spec_generator(generator).unwrap().current_production <= post.spec_generator(
            generator,
        ).unwrap().capacity_kw
        &&& post.spec_balance_of(generator) as int == pre.spec_balance_of(generator) + amount
        &&& forall|a: u64| a != generator ==> post.spec_balance_of(a) == pre.spec_balance_of(a)
        &&& post.total_supply as int == pre.total_supply + amount
        &&& post.allowances@ == pre.allowances@
        &&& Self::meta_same(pre, post)
        &&& (all_within_capacity(pre.generators@) ==> all_within_capacity(post.generators@))
    }

    /// Mints `energy_amount_kwh` of credit against `generator`: records a
    /// fresh credit expiring `expiry_hours` hours from `now`, raises the
    /// generator's outstanding production, and credits the generator's own
    /// balance and the total supply.  Returns the new credit's id.  The host
    /// must have authenticated the caller as `generator`.
    ///
    /// `_oracle_proof` is a reserved hook for validating external pricing
    /// data; it is currently accepted but not examined.
    pub fn mint_energy_tokens(
        &mut self,
        generator: u64,
        energy_amount_kwh: u64,
        expiry_hours: u64,
        _oracle_proof: Option<[u8; 32]>,
        now: u64,
    ) -> (r: Result<u64, STRGRIDError>)
        requires
            old(self).wf(),
        ensures
            final(self).wf(),
            (match r {
                Ok(token_id) => Self::mint_err(
                    *old(self),
                    generator,
                    energy_amount_kwh,
                    expiry_hours,
                    now,
                ) is None && Self::mint_post(
                    *old(self),
                    *final(self),
                    generator,
                    energy_amount_kwh,
                    expiry_hours,
                    now,
                    token_id,
                ),
                Err(e) => Self::mint_err(
                    *old(self),
                    generator,
                    energy_amount_kwh,
                    expiry_hours,
                    now,
                ) == Some(e) && Self::same_state(*old(self), *final(self)),
            }),
    {
        let g = match gen_lookup(&self.generators, generator) {
            Some(g) => g,
            None => return Err(STRGRIDError::GeneratorNotFound),
        };
        if !g.is_active {
            return Err(STRGRIDError::GeneratorInactive);
        }
        if g.current_production > g.capacity_kw || energy_amount_kwh > g.capacity_kw
            - g.current_production {
            return Err(STRGRIDError::InsufficientCapacity);
        }
        if energy_amount_kwh > u64::MAX - self.total_supply {
            return Err(STRGRIDError::InvalidAmount);
        }
        if expiry_hours > u64::MAX / 3600 {
            proof {
                assert(expiry_hours * 3600 > u64::MAX) by (nonlinear_arith)
                    requires
                        expiry_hours > u64::MAX as int / 3600,
                ;
            }
            return Err(STRGRIDError::InvalidAmount);
        }
        let expiry_offset = expiry_hours * 3600;
        if expiry_offset > u64::MAX - now {
            return Err(STRGRIDError::InvalidAmount);
        }
        if self.next_token_id == u64::MAX {
            return Err(STRGRIDError::InvalidAmount);
        }
        proof {
            lemma_gen_of_mem(self.generators@, generator);
        }
        let token_id = self.next_token_id;
        let expiry_timestamp = now + expiry_offset;
        let minted = EnergyToken {
            id: token_id,
            generator_id: generator,
            amount_kwh: energy_amount_kwh,
            creation_timestamp: now,
            expiry_timestamp,
            is_consumed: false,
        };
        proof {
            assert forall|i: int|
                0 <= i < self.credits@.len() implies (#[trigger] self.credits@[i]).id
                != token_id by {
                if self.credits@[i].id == token_id {
                    lemma_tok_at_index(self.credits@, i);
                }
            }
            lemma_tok_push(self.credits@, minted);
        }
        self.credits.push(minted);
        self.next_token_id = token_id + 1;
        let mut updated = g;
        updated.current_production = g.current_production + energy_amount_kwh;
        gen_store(&mut self.generators, updated);
        let current_balance = bal_lookup(&self.balances, generator);
        proof {
            lemma_bal_le_sum(self.balances@, generator);
        }
        bal_store(&mut self.balances, generator, current_balance + energy_amount_kwh);
        self.total_supply = self.total_supply + energy_amount_kwh;
        proof {
            assert forall|id: u64|
                tok_of(self.credits@, id) is Some implies id < self.next_token_id && gen_of(
                self.generators@,
                tok_of(self.credits@, id).unwrap().generator_id,
            ) is Some by {
                if id != token_id {
                    assert(tok_of(self.credits@, id) == tok_of(old(self).credits@, id));
                }
            }
        }
        Ok(token_id)
    }

    /// Why `burn_energy_tokens` fails on `pre`, or `None` when it succeeds.
    ///
    /// A missing credit and an expired credit share `TokenNotFound`.  A burn
    /// amount exceeding the issuing generator's outstanding production is
    /// rejected as `InvalidAmount` rather than wrapping the production
    /// counter below zero.
    pub open spec fn burn_err(
        pre: Self,
        consumer: u64,
        token_id: u64,
        amount: u64,
        now: u64,
    ) -> Option<STRGRIDError> {
        if pre.spec_credit(token_id) is None {
            Some(STRGRIDError::TokenNotFound)
        } else if now > pre.spec_credit(token_id).unwrap().expiry_timestamp {
            Some(STRGRIDError::TokenNotFound)
        } else if pre.spec_credit(token_id).unwrap().is_consumed {
            Some(STRGRIDError::AlreadyBurned)
        } else if pre.spec_balance_of(consumer) < amount {
            Some(STRGRIDError::InsufficientBalance)
        } else if amount > gen_of(
            pre.generators@,
            pre.spec_credit(token_id).unwrap().generator_id,
        ).unwrap().current_production {
            Some(STRGRIDError::InvalidAmount)
        } else {
            None
        }
    }

    /// The successful burn transition: the credit is marked consumed — in
    /// full, whatever `amount` was burned against it — and the consumer's
    /// balance, the issuing generator's outstanding production and the total
    /// supply all fall by `amount`.
    pub open spec fn burn_post(
        pre: Self,
        post: Self,
        consumer: u64,
        token_id: u64,
        amount: u64,
    ) -> bool {
        let c = pre.spec_credit(token_id).unwrap();
        let g = gen_of(pre.generators@, c.generator_id).unwrap();
        &&& post.spec_credit(token_id) == Some(with_consumed(c))
        &&& forall|id: u64| id != token_id ==> post.spec_credit(id) == pre.spec_credit(id)
        &&& post.spec_balance_of(consumer) as int == pre.spec_balance_of(consumer) - amount
        &&& forall|a: u64| a != consumer ==> post.spec_balance_of(a) == pre.spec_balance_of(a)
        &&& Self::generators_replaced(
            pre,
            post,
            c.generator_id,
            with_production(g, (g.current_production - amount) as u64),
        )
        &&& post.total_supply as int == pre.total_supply - amount
        &&& post.allowances@ == pre.allowances@
        &&& post.next_token_id == pre.next_token_id
        &&& Self::meta_same(pre, post)
        &&& (all_within_capacity(pre.generators@) ==> all_within_capacity(post.generators@))
    }

    /// Burns `amount` of the consumer's balance against the credit
    /// `token_id`: marks the credit consumed, debits the consumer, lowers
    /// the issuing generator's outstanding production and the total supply.
    /// The amount need not equal the credit's own amount, but the credit is
    /// marked fully consumed regardless.  The host must have authenticated
    /// the caller as `consumer`; `now` is the current ledger time.
    pub fn burn_energy_tokens(&mut self, consumer: u64, token_id: u64, amount: u64, now: u64) -> (r:
        Result<(), STRGRIDError>)
        requires
            old(self).wf(),
        ensures
            final(self).wf(),
            (match r {
                Ok(()) => Self::burn_err(*old(self), consumer, token_id, amount, now) is None
                    && Self::burn_post(*old(self), *final(self), consumer, token_id, amount),
                Err(e) => Self::burn_err(*old(self), consumer, token_id, amount, now) == Some(e)
                    && Self::same_state(*old(self), *final(self)),
            }),
    {
        let c = match tok_lookup(&self.credits, token_id) {
            Some(c) => c,
            None => return Err(STRGRIDError::TokenNotFound),
        };
        if now > c.expiry_timestamp {
            return Err(STRGRIDError::TokenNotFound);
        }
        if c.is_consumed {
            return Err(STRGRIDError::AlreadyBurned);
        }
        let consumer_balance = bal_lookup(&self.balances, consumer);
        if consumer_balance < amount {
            return Err(STRGRIDError::InsufficientBalance);
        }
        let g = match gen_lookup(&self.generators, c.generator_id) {
            Some(g) => g,
            // well-formedness: every credit's generator stays registered
            None => unreached(),
        };
        if amount > g.current_production {
            return Err(STRGRIDError::InvalidAmount);
        }
        proof {
            lemma_tok_of_mem(self.credits@, token_id);
            lemma_gen_of_mem(self.generators@, c.generator_id);
            lemma_bal_le_sum(self.balances@, consumer);
        }
        bal_store(&mut self.balances, consumer, consumer_balance - amount);
        let mut burned = c;
        burned.is_consumed = true;
        tok_store(&mut self.credits, burned);
        let mut updated = g;
        updated.current_production = g.current_production - amount;
        gen_store(&mut self.generators, updated);
        self.total_supply = self.total_supply - amount;
        Ok(())
    }

    /// The balance of `address`; zero for an account never credited.
    pub fn balance_of(&self, address: u64) -> (r: u64)
        requires
            self.wf(),
        ensures
            r == self.spec_balance_of(address),
    {
        bal_lookup(&self.balances, address)
    }

    /// The allowance `owner` has granted `spender`; zero when none is stored.
    pub fn allowance(&self, owner: u64, spender: u64) -> (r: u64)
        requires
            self.wf(),
        ensures
            r == self.spec_allowance(owner, spender),
    {
        alw_lookup(&self.allowances, owner, spender)
    }

    /// The running total supply: all credit minted and not yet burned.
    pub fn total_supply(&self) -> (r: u64)
        ensures
            r == self.total_supply,
    {
        self.total_supply
    }

    /// The token metadata, whose supply counter is the running total supply.
    /// Fails while the ledger is uninitialized.
    pub fn get_metadata(&self) -> (r: Result<TokenMetadata, STRGRIDError>)
        ensures
            (match r {
                Ok(m) => self.spec_initialized() && m.name@ == self.name@ && m.symbol@
                    == self.symbol@ && m.decimals == self.decimals && m.total_supply
                    == self.total_supply,
                Err(e) => e == STRGRIDError::NotInitialized && !self.spec_initialized(),
            }),
    {
        match self.admin {
            None => Err(STRGRIDError::NotInitialized),
            Some(_) => Ok(
                TokenMetadata {
                    name: self.name.clone(),
                    symbol: self.symbol.clone(),
                    decimals: self.decimals,
                    total_supply: self.total_supply,
                },
            ),
        }
    }

    /// The generator registered under `generator`; fails when none is.
    pub fn get_generator(&self, generator: u64) -> (r: Result<EnergyGenerator, STRGRIDError>)
        requires
            self.wf(),
        ensures
            (match r {
                Ok(g) => self.spec_generator(generator) == Some(g),
                Err(e) => e == STRGRIDError::GeneratorNotFound && self.spec_generator(generator)
                    is None,
            }),
    {
        match gen_lookup(&self.generators, generator) {
            Some(g) => Ok(g),
            None => Err(STRGRIDError::GeneratorNotFound),
        }
    }

    /// The credit recorded under `token_id`; fails when none is.  A credit
    /// stays queryable after expiry and after it is burned.
    pub fn get_energy_token(&self, token_id: u64) -> (r: Result<EnergyToken, STRGRIDError>)
        requires
            self.wf(),
        ensures
            (match r {
                Ok(t) => self.spec_credit(token_id) == Some(t),
                Err(e) => e == STRGRIDError::TokenNotFound && self.spec_credit(token_id) is None,
            }),
    {
        match tok_lookup(&self.credits, token_id) {
            Some(t) => Ok(t),
            None => Err(STRGRIDError::TokenNotFound),
        }
    }
}

} // verus!
