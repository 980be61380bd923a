//! The ledger's laws, stated in one place and proved from what the
//! operations' own contracts establish.
//!
//! Every operation requires a well-formed ledger and ensures one back, so by
//! induction every reachable state is well-formed; the lemmas here spell out
//! what that buys across operations.

use vstd::prelude::*;

use crate::balances::sum_amounts;
use crate::errors::STRGRIDError;
use crate::ledger::STRGRIDContract;
use crate::registry::all_within_capacity;

verus! {

/// Conservation: in every well-formed ledger state the sum of all account
/// balances equals the running total supply.  Since `new` establishes
/// well-formedness and every operation preserves it, the law holds after
/// every operation of every successful sequence.
pub proof fn lemma_conservation(s: STRGRIDContract)
    requires
        s.wf(),
    ensures
        sum_amounts(s.balances@) == s.total_supply,
{
}

/// Capacity after mint: when every generator's outstanding production fit
/// under its capacity before a successful mint, it still does after — and
/// the minting generator's new production fits its capacity regardless.
pub proof fn lemma_capacity_after_mint(
    pre: STRGRIDContract,
    post: STRGRIDContract,
    generator: u64,
    amount: u64,
    expiry_hours: u64,
    now: u64,
    token_id: u64,
)
    requires
        STRGRIDContract::mint_post(pre, post, generator, amount, expiry_hours, now, token_id),
        all_within_capacity(pre.generators@),
    ensures
        all_within_capacity(post.generators@),
        post.spec_generator(generator).unwrap().current_production <= post.spec_generator(
            generator,
        ).unwrap().capacity_kw,
{
}

/// Capacity after burn: a successful burn only lowers the issuing
/// generator's outstanding production, so every generator that fit under its
/// capacity before still fits after.
pub proof fn lemma_capacity_after_burn(
    pre: STRGRIDContract,
    post: STRGRIDContract,
    consumer: u64,
    token_id: u64,
    amount: u64,
)
    requires
        STRGRIDContract::burn_post(pre, post, consumer, token_id, amount),
        all_within_capacity(pre.generators@),
    ensures
        all_within_capacity(post.generators@),
{
}

/// No double-spend: after a successful burn of `token_id`, a second burn of
/// the same credit — by any consumer, of any amount, at any time up to the
/// credit's expiry — fails with `AlreadyBurned`.  (Past the expiry the
/// second burn fails too, but with `TokenNotFound`, as expiry and absence
/// share that error.)
pub proof fn lemma_no_double_spend(
    pre: STRGRIDContract,
    mid: STRGRIDContract,
    consumer: u64,
    token_id: u64,
    amount: u64,
    now: u64,
    consumer2: u64,
    amount2: u64,
    now2: u64,
)
    requires
        pre.wf(),
        STRGRIDContract::burn_err(pre, consumer, token_id, amount, now) is None,
        STRGRIDContract::burn_post(pre, mid, consumer, token_id, amount),
        now2 <= pre.spec_credit(token_id).unwrap().expiry_timestamp,
    ensures
        STRGRIDContract::burn_err(mid, consumer2, token_id, amount2, now2) == Some(
            STRGRIDError::AlreadyBurned,
        ),
{
}

/// Allowance spend-down: after `approve(owner, spender, a)` and then a
/// successful `transfer_from(spender, owner, to, b)`, the remaining
/// allowance is exactly `a - b` — and a successful spend implies `b <= a`.
pub proof fn lemma_allowance_spend_down(
    s0: STRGRIDContract,
    s1: STRGRIDContract,
    s2: STRGRIDContract,
    owner: u64,
    spender: u64,
    to: u64,
    a: u64,
    b: u64,
)
    requires
        STRGRIDContract::approve_post(s0, s1, owner, spender, a),
        STRGRIDContract::transfer_from_err(s1, spender, owner, to, b) is None,
        STRGRIDContract::transfer_from_post(s1, s2, spender, owner, to, b),
    ensures
        b <= a,
        s2.spec_allowance(owner, spender) as int == a - b,
{
}

} // verus!
