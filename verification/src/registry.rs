//! The generator registry and the energy credit registry, stored as lists
//! keyed by the generator's address and the credit's id respectively.

use vstd::prelude::*;

use crate::records::EnergyGenerator;
use crate::records::EnergyToken;

verus! {

/// No generator address appears twice.
pub open spec fn gen_keys_unique(s: Seq<EnergyGenerator>) -> bool {
    forall|i: int, j: int|
        0 <= i < j < s.len() ==> (#[trigger] s[i]).address != (#[trigger] s[j]).address
}

/// Some entry carries the generator address `a`.
pub open spec fn gen_has_key(s: Seq<EnergyGenerator>, a: u64) -> bool {
    exists|i: int| 0 <= i < s.len() && (#[trigger] s[i]).address == a
}

/// The generator registered under address `a`, when there is one.
pub open spec fn gen_of(s: Seq<EnergyGenerator>, a: u64) -> Option<EnergyGenerator>
    decreases s.len(),
{
    if s.len() == 0 {
        None
    } else if s.last().address == a {
        Some(s.last())
    } else {
        gen_of(s.drop_last(), a)
    }
}

/// Every registered generator's outstanding production fits under its
/// capacity.
///
/// This holds after every successful mint and burn.  It is not part of the
/// ledger's unconditional invariant, because the admin may lower a capacity
/// below the production already outstanding against it.
pub open spec fn all_within_capacity(gens: Seq<EnergyGenerator>) -> bool {
    forall|a: u64|
        #![trigger gen_of(gens, a)]
        gen_of(gens, a) is Some ==> gen_of(gens, a).unwrap().current_production <= gen_of(
            gens,
            a,
        ).unwrap().capacity_kw
}

pub proof fn lemma_gen_keys_unique_drop_last(s: Seq<EnergyGenerator>)
    requires
        gen_keys_unique(s),
        s.len() > 0,
    ensures
        gen_keys_unique(s.drop_last()),
{
    assert forall|i: int, j: int|
        0 <= i < j < s.drop_last().len() implies (#[trigger] s.drop_last()[i]).address != (
    #[trigger] s.drop_last()[j]).address by {
        assert(s.drop_last()[i] == s[i]);
        assert(s.drop_last()[j] == s[j]);
    }
}

/// With unique addresses, the entry at index `i` is the one `gen_of` finds.
pub proof fn lemma_gen_at_index(s: Seq<EnergyGenerator>, i: int)
    requires
        gen_keys_unique(s),
        0 <= i < s.len(),
    ensures
        gen_of(s, s[i].address) == Some(s[i]),
    decreases s.len(),
{
    if i < s.len() - 1 {
        assert(s[i].address != s[s.len() - 1].address);
        lemma_gen_keys_unique_drop_last(s);
        assert(s.drop_last()[i] == s[i]);
        lemma_gen_at_index(s.drop_last(), i);
    }
}

/// An address no entry carries is not registered.
pub proof fn lemma_gen_absent(s: Seq<EnergyGenerator>, a: u64)
    requires
        !gen_has_key(s, a),
    ensures
        gen_of(s, a) is None,
    decreases s.len(),
{
    if s.len() > 0 {
        assert(s[s.len() - 1].address != a);
        assert(!gen_has_key(s.drop_last(), a)) by {
            if gen_has_key(s.drop_last(), a) {
                let k = choose|k: int|
                    0 <= k < s.drop_last().len() && (#[trigger] s.drop_last()[k]).address == a;
                assert(s[k].address == a);
            }
        }
        lemma_gen_absent(s.drop_last(), a);
    }
}

/// A found generator sits at some index and carries the looked-up address.
pub proof fn lemma_gen_of_mem(s: Seq<EnergyGenerator>, a: u64)
    requires
        gen_of(s, a) is Some,
    ensures
        gen_of(s, a).unwrap().address == a,
        exists|i: int| 0 <= i < s.len() && (#[trigger] s[i]) == gen_of(s, a).unwrap(),
    decreases s.len(),
{
    if s.len() > 0 && s.last().address != a {
        lemma_gen_of_mem(s.drop_last(), a);
        let i = choose|i: int|
            0 <= i < s.drop_last().len() && (#[trigger] s.drop_last()[i]) == gen_of(
                s.drop_last(),
                a,
            ).unwrap();
        assert(s[i] == s.drop_last()[i]);
    }
}

/// Replacing the entry at `i` while keeping its address leaves every other
/// address's record unchanged and registers the new record under the address.
pub proof fn lemma_gen_update(s: Seq<EnergyGenerator>, i: int, g: EnergyGenerator)
    requires
        gen_keys_unique(s),
        0 <= i < s.len(),
        s[i].address == g.address,
    ensures
        gen_keys_unique(s.update(i, g)),
        gen_of(s.update(i, g), g.address) == Some(g),
        forall|a: u64| a != g.address ==> gen_of(s.update(i, g), a) == gen_of(s, a),
    decreases s.len(),
{
    let t = s.update(i, g);
    assert forall|x: int, y: int|
        0 <= x < y < t.len() implies (#[trigger] t[x]).address != (#[trigger] t[y]).address by {
        assert(t[x].address == s[x].address);
        assert(t[y].address == s[y].address);
    }
    if i == s.len() - 1 {
        assert(t.drop_last() =~= s.drop_last());
        assert forall|a: u64| a != g.address implies gen_of(t, a) == gen_of(s, a) by {
            assert(gen_of(t, a) == gen_of(t.drop_last(), a));
            assert(gen_of(s, a) == gen_of(s.drop_last(), a));
        }
    } else {
        lemma_gen_keys_unique_drop_last(s);
        lemma_gen_update(s.drop_last(), i, g);
        assert(t.drop_last() =~= s.drop_last().update(i, g));
        assert(t.last() == s.last());
        assert forall|a: u64| a != g.address implies gen_of(t, a) == gen_of(s, a) by {
            if s.last().address == a {
                assert(gen_of(t, a) == Some(t.last()));
            } else {
                assert(gen_of(t, a) == gen_of(t.drop_last(), a));
                assert(gen_of(s, a) == gen_of(s.drop_last(), a));
            }
        }
    }
    lemma_gen_at_index(t, i);
}

/// Looks up the generator registered under address `a`.
pub fn gen_lookup(v: &Vec<EnergyGenerator>, a: u64) -> (r: Option<EnergyGenerator>)
    requires
        gen_keys_unique(v@),
    ensures
        r == gen_of(v@, a),
{
    let n = v.len();
    let mut i: usize = 0;
    while i < n
        invariant
            n == v@.len(),
            i <= n,
            gen_keys_unique(v@),
            forall|k: int| 0 <= k < i ==> (#[trigger] v@[k]).address != a,
        decreases n - i,
    {
        if v[i].address == a {
            proof {
                lemma_gen_at_index(v@, i as int);
            }
            return Some(v[i]);
        }
        i = i + 1;
    }
    proof {
        assert(!gen_has_key(v@, a));
        lemma_gen_absent(v@, a);
    }
    None
}

/// Registers `g` under its address, replacing the entry or appending one.
pub fn gen_store(v: &mut Vec<EnergyGenerator>, g: EnergyGenerator)
    requires
        gen_keys_unique(old(v)@),
    ensures
        gen_keys_unique(final(v)@),
        gen_of(final(v)@, g.address) == Some(g),
        forall|a: u64| a != g.address ==> gen_of(final(v)@, a) == gen_of(old(v)@, a),
{
    let ghost orig: Seq<EnergyGenerator> = v@;
    let n = v.len();
    let mut i: usize = 0;
    while i < n
        invariant
            v@ == orig,
            orig == old(v)@,
            n == orig.len(),
            i <= n,
            gen_keys_unique(orig),
            forall|k: int| 0 <= k < i ==> (#[trigger] orig[k]).address != g.address,
        decreases n - i,
    {
        if v[i].address == g.address {
            proof {
                lemma_gen_update(orig, i as int, g);
            }
            v.set(i, g);
            return ;
        }
        i = i + 1;
    }
    v.push(g);
    proof {
        assert(v@.drop_last() =~= orig);
        assert(v@.last() == g);
        assert forall|x: int, y: int|
            0 <= x < y < v@.len() implies (#[trigger] v@[x]).address != (
        #[trigger] v@[y]).address by {
            if y < v@.len() - 1 {
                assert(v@[x] == orig[x]);
                assert(v@[y] == orig[y]);
            } else {
                assert(v@[x] == orig[x]);
                assert(orig[x].address != g.address);
            }
        }
        assert forall|a: u64| a != g.address implies gen_of(v@, a) == gen_of(orig, a) by {
            assert(gen_of(v@, a) == gen_of(v@.drop_last(), a));
        }
    }
}

/// No credit id appears twice.
pub open spec fn tok_keys_unique(s: Seq<EnergyToken>) -> bool {
    forall|i: int, j: int| 0 <= i < j < s.len() ==> (#[trigger] s[i]).id != (#[trigger] s[j]).id
}

/// Some entry carries the credit id `id`.
pub open spec fn tok_has_key(s: Seq<EnergyToken>, id: u64) -> bool {
    exists|i: int| 0 <= i < s.len() && (#[trigger] s[i]).id == id
}

/// The credit recorded under `id`, when there is one.
pub open spec fn tok_of(s: Seq<EnergyToken>, id: u64) -> Option<EnergyToken>
    decreases s.len(),
{
    if s.len() == 0 {
        None
    } else if s.last().id == id {
        Some(s.last())
    } else {
        tok_of(s.drop_last(), id)
    }
}

pub proof fn lemma_tok_keys_unique_drop_last(s: Seq<EnergyToken>)
    requires
        tok_keys_unique(s),
        s.len() > 0,
    ensures
        tok_keys_unique(s.drop_last()),
{
    assert forall|i: int, j: int|
        0 <= i < j < s.drop_last().len() implies (#[trigger] s.drop_last()[i]).id != (
    #[trigger] s.drop_last()[j]).id by {
        assert(s.drop_last()[i] == s[i]);
        assert(s.drop_last()[j] == s[j]);
    }
}

/// With unique ids, the entry at index `i` is the one `tok_of` finds.
pub proof fn lemma_tok_at_index(s: Seq<EnergyToken>, i: int)
    requires
        tok_keys_unique(s),
        0 <= i < s.len(),
    ensures
        tok_of(s, s[i].id) == Some(s[i]),
    decreases s.len(),
{
    if i < s.len() - 1 {
        assert(s[i].id != s[s.len() - 1].id);
        lemma_tok_keys_unique_drop_last(s);
        assert(s.drop_last()[i] == s[i]);
        lemma_tok_at_index(s.drop_last(), i);
    }
}

/// An id no entry carries is not recorded.
pub proof fn lemma_tok_absent(s: Seq<EnergyToken>, id: u64)
    requires
        !tok_has_key(s, id),
    ensures
        tok_of(s, id) is None,
    decreases s.len(),
{
    if s.len() > 0 {
        assert(s[s.len() - 1].id != id);
        assert(!tok_has_key(s.drop_last(), id)) by {
            if tok_has_key(s.drop_last(), id) {
                let k = choose|k: int|
                    0 <= k < s.drop_last().len() && (#[trigger] s.drop_last()[k]).id == id;
                assert(s[k].id == id);
            }
        }
        lemma_tok_absent(s.drop_last(), id);
    }
}

/// A found credit sits at some index and carries the looked-up id.
pub proof fn lemma_tok_of_mem(s: Seq<EnergyToken>, id: u64)
    requires
        tok_of(s, id) is Some,
    ensures
        tok_of(s, id).unwrap().id == id,
        exists|i: int| 0 <= i < s.len() && (#[trigger] s[i]) == tok_of(s, id).unwrap(),
    decreases s.len(),
{
    if s.len() > 0 && s.last().id != id {
        lemma_tok_of_mem(s.drop_last(), id);
        let i = choose|i: int|
            0 <= i < s.drop_last().len() && (#[trigger] s.drop_last()[i]) == tok_of(
                s.drop_last(),
                id,
            ).unwrap();
        assert(s[i] == s.drop_last()[i]);
    }
}

/// Replacing the entry at `i` while keeping its id leaves every other id's
/// record unchanged and records the new credit under the id.
pub proof fn lemma_tok_update(s: Seq<EnergyToken>, i: int, t: EnergyToken)
    requires
        tok_keys_unique(s),
        0 <= i < s.len(),
        s[i].id == t.id,
    ensures
        tok_keys_unique(s.update(i, t)),
        tok_of(s.update(i, t), t.id) == Some(t),
        forall|id: u64| id != t.id ==> tok_of(s.update(i, t), id) == tok_of(s, id),
    decreases s.len(),
{
    let u = s.update(i, t);
    assert forall|x: int, y: int|
        0 <= x < y < u.len() implies (#[trigger] u[x]).id != (#[trigger] u[y]).id by {
        assert(u[x].id == s[x].id);
        assert(u[y].id == s[y].id);
    }
    if i == s.len() - 1 {
        assert(u.drop_last() =~= s.drop_last());
        assert forall|id: u64| id != t.id implies tok_of(u, id) == tok_of(s, id) by {
            assert(tok_of(u, id) == tok_of(u.drop_last(), id));
            assert(tok_of(s, id) == tok_of(s.drop_last(), id));
        }
    } else {
        lemma_tok_keys_unique_drop_last(s);
        lemma_tok_update(s.drop_last(), i, t);
        assert(u.drop_last() =~= s.drop_last().update(i, t));
        assert(u.last() == s.last());
        assert forall|id: u64| id != t.id implies tok_of(u, id) == tok_of(s, id) by {
            if s.last().id == id {
                assert(tok_of(u, id) == Some(u.last()));
            } else {
                assert(tok_of(u, id) == tok_of(u.drop_last(), id));
                assert(tok_of(s, id) == tok_of(s.drop_last(), id));
            }
        }
    }
    lemma_tok_at_index(u, i);
}

/// Appending a credit whose id is fresh records it and touches no other id.
pub proof fn lemma_tok_push(s: Seq<EnergyToken>, t: EnergyToken)
    requires
        forall|i: int| 0 <= i < s.len() ==> (#[trigger] s[i]).id != t.id,
        tok_keys_unique(s),
    ensures
        tok_keys_unique(s.push(t)),
        tok_of(s.push(t), t.id) == Some(t),
        forall|id: u64| id != t.id ==> tok_of(s.push(t), id) == tok_of(s, id),
{
    let u = s.push(t);
    assert(u.drop_last() =~= s);
    assert(u.last() == t);
    assert forall|x: int, y: int|
        0 <= x < y < u.len() implies (#[trigger] u[x]).id != (#[trigger] u[y]).id by {
        if y < u.len() - 1 {
            assert(u[x] == s[x]);
            assert(u[y] == s[y]);
        } else {
            assert(u[x] == s[x]);
        }
    }
    assert forall|id: u64| id != t.id implies tok_of(u, id) == tok_of(s, id) by {
        assert(tok_of(u, id) == tok_of(u.drop_last(), id));
    }
}

/// Looks up the credit recorded under `id`.
pub fn tok_lookup(v: &Vec<EnergyToken>, id: u64) -> (r: Option<EnergyToken>)
    requires
        tok_keys_unique(v@),
    ensures
        r == tok_of(v@, id),
{
    let n = v.len();
    let mut i: usize = 0;
    while i < n
        invariant
            n == v@.len(),
            i <= n,
            tok_keys_unique(v@),
            forall|k: int| 0 <= k < i ==> (#[trigger] v@[k]).id != id,
        decreases n - i,
    {
        if v[i].id == id {
            proof {
                lemma_tok_at_index(v@, i as int);
            }
            return Some(v[i]);
        }
        i = i + 1;
    }
    proof {
        assert(!tok_has_key(v@, id));
        lemma_tok_absent(v@, id);
    }
    None
}

/// Records `t` under its id, replacing the entry or appending one.
pub fn tok_store(v: &mut Vec<EnergyToken>, t: EnergyToken)
    requires
        tok_keys_unique(old(v)@),
    ensures
        tok_keys_unique(final(v)@),
        tok_of(final(v)@, t.id) == Some(t),
        forall|id: u64| id != t.id ==> tok_of(final(v)@, id) == tok_of(old(v)@, id),
{
    let ghost orig: Seq<EnergyToken> = v@;
    let n = v.len();
    let mut i: usize = 0;
    while i < n
        invariant
            v@ == orig,
            orig == old(v)@,
            n == orig.len(),
            i <= n,
            tok_keys_unique(orig),
            forall|k: int| 0 <= k < i ==> (#[trigger] orig[k]).id != t.id,
        decreases n - i,
    {
        if v[i].id == t.id {
            proof {
                lemma_tok_update(orig, i as int, t);
            }
            v.set(i, t);
            return ;
        }
        i = i + 1;
    }
    proof {
        lemma_tok_push(orig, t);
    }
    v.push(t);
}

} // verus!
