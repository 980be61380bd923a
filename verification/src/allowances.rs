//! Spending allowances, stored as a list of (owner, spender, amount) triples
//! in which each (owner, spender) pair appears at most once.
//!
//! An allowance is independent of the owner's balance: it may exceed it, and
//! enforcement happens only at spend time.

use vstd::prelude::*;

verus! {

/// No (owner, spender) pair appears in two entries.
pub open spec fn alw_keys_unique(s: Seq<(u64, u64, u64)>) -> bool {
    forall|i: int, j: int|
        0 <= i < j < s.len() ==> !((#[trigger] s[i]).0 == (#[trigger] s[j]).0 && s[i].1 == s[j].1)
}

/// Some entry carries the pair (owner `o`, spender `p`).
pub open spec fn alw_has_key(s: Seq<(u64, u64, u64)>, o: u64, p: u64) -> bool {
    exists|i: int| 0 <= i < s.len() && (#[trigger] s[i]).0 == o && s[i].1 == p
}

/// The allowance owner `o` has granted spender `p`: the amount stored beside
/// the pair, zero when the pair is absent.
pub open spec fn alw_of(s: Seq<(u64, u64, u64)>, o: u64, p: u64) -> u64
    decreases s.len(),
{
    if s.len() == 0 {
        0u64
    } else if s.last().0 == o && s.last().1 == p {
        s.last().2
    } else {
        alw_of(s.drop_last(), o, p)
    }
}

pub proof fn lemma_alw_keys_unique_drop_last(s: Seq<(u64, u64, u64)>)
    requires
        alw_keys_unique(s),
        s.len() > 0,
    ensures
        alw_keys_unique(s.drop_last()),
{
    assert forall|i: int, j: int|
        0 <= i < j < s.drop_last().len() implies !((#[trigger] s.drop_last()[i]).0 == (
    #[trigger] s.drop_last()[j]).0 && s.drop_last()[i].1 == s.drop_last()[j].1) by {
        assert(s.drop_last()[i] == s[i]);
        assert(s.drop_last()[j] == s[j]);
    }
}

/// With unique pairs, the entry at index `i` is the one `alw_of` reads.
pub proof fn lemma_alw_at_index(s: Seq<(u64, u64, u64)>, i: int)
    requires
        alw_keys_unique(s),
        0 <= i < s.len(),
    ensures
        alw_of(s, s[i].0, s[i].1) == s[i].2,
    decreases s.len(),
{
    if i < s.len() - 1 {
        assert(!(s[i].0 == s[s.len() - 1].0 && s[i].1 == s[s.len() - 1].1));
        lemma_alw_keys_unique_drop_last(s);
        assert(s.drop_last()[i] == s[i]);
        lemma_alw_at_index(s.drop_last(), i);
    }
}

/// An absent pair has allowance zero.
pub proof fn lemma_alw_absent(s: Seq<(u64, u64, u64)>, o: u64, p: u64)
    requires
        !alw_has_key(s, o, p),
    ensures
        alw_of(s, o, p) == 0,
    decreases s.len(),
{
    if s.len() > 0 {
        assert(!(s[s.len() - 1].0 == o && s[s.len() - 1].1 == p));
        assert(!alw_has_key(s.drop_last(), o, p)) by {
            if alw_has_key(s.drop_last(), o, p) {
                let k = choose|k: int|
                    0 <= k < s.drop_last().len() && (#[trigger] s.drop_last()[k]).0 == o
                        && s.drop_last()[k].1 == p;
                assert(s[k].0 == o && s[k].1 == p);
            }
        }
        lemma_alw_absent(s.drop_last(), o, p);
    }
}

/// Replacing the entry at `i` while keeping its pair leaves every other
/// pair's allowance unchanged and gives the pair the new amount.
pub proof fn lemma_alw_update(s: Seq<(u64, u64, u64)>, i: int, v: (u64, u64, u64))
    requires
        alw_keys_unique(s),
        0 <= i < s.len(),
        s[i].0 == v.0,
        s[i].1 == v.1,
    ensures
        alw_keys_unique(s.update(i, v)),
        alw_of(s.update(i, v), v.0, v.1) == v.2,
        forall|o: u64, p: u64|
            !(o == v.0 && p == v.1) ==> alw_of(s.update(i, v), o, p) == alw_of(s, o, p),
    decreases s.len(),
{
    let t = s.update(i, v);
    assert forall|x: int, y: int|
        0 <= x < y < t.len() implies !((#[trigger] t[x]).0 == (#[trigger] t[y]).0 && t[x].1
        == t[y].1) by {
        assert(t[x].0 == s[x].0 && t[x].1 == s[x].1);
        assert(t[y].0 == s[y].0 && t[y].1 == s[y].1);
    }
    if i == s.len() - 1 {
        assert(t.drop_last() =~= s.drop_last());
        assert forall|o: u64, p: u64| !(o == v.0 && p == v.1) implies alw_of(t, o, p) == alw_of(
            s,
            o,
            p,
        ) by {
            assert(alw_of(t, o, p) == alw_of(t.drop_last(), o, p));
            assert(alw_of(s, o, p) == alw_of(s.drop_last(), o, p));
        }
    } else {
        lemma_alw_keys_unique_drop_last(s);
        lemma_alw_update(s.drop_last(), i, v);
        assert(t.drop_last() =~= s.drop_last().update(i, v));
        assert(t.last() == s.last());
        assert forall|o: u64, p: u64| !(o == v.0 && p == v.1) implies alw_of(t, o, p) == alw_of(
            s,
            o,
            p,
        ) by {
            if s.last().0 == o && s.last().1 == p {
                assert(alw_of(t, o, p) == t.last().2);
            } else {
                assert(alw_of(t, o, p) == alw_of(t.drop_last(), o, p));
                assert(alw_of(s, o, p) == alw_of(s.drop_last(), o, p));
            }
        }
    }
    lemma_alw_at_index(t, i);
}

/// Looks up the allowance owner `o` has granted spender `p`.
pub fn alw_lookup(v: &Vec<(u64, u64, u64)>, o: u64, p: u64) -> (r: u64)
    requires
        alw_keys_unique(v@),
    ensures
        r == alw_of(v@, o, p),
{
    let n = v.len();
    let mut i: usize = 0;
    while i < n
        invariant
            n == v@.len(),
            i <= n,
            alw_keys_unique(v@),
            forall|k: int| 0 <= k < i ==> !((#[trigger] v@[k]).0 == o && v@[k].1 == p),
        decreases n - i,
    {
        if v[i].0 == o && v[i].1 == p {
            proof {
                lemma_alw_at_index(v@, i as int);
            }
            return v[i].2;
        }
        i = i + 1;
    }
    proof {
        assert(!alw_has_key(v@, o, p));
        lemma_alw_absent(v@, o, p);
    }
    0
}

/// Stores `amt` as the allowance of (owner `o`, spender `p`), replacing the
/// entry or appending a fresh one.
pub fn alw_store(v: &mut Vec<(u64, u64, u64)>, o: u64, p: u64, amt: u64)
    requires
        alw_keys_unique(old(v)@),
    ensures
        alw_keys_unique(final(v)@),
        alw_of(final(v)@, o, p) == amt,
        forall|x: u64, y: u64|
            !(x == o && y == p) ==> alw_of(final(v)@, x, y) == alw_of(old(v)@, x, y),
{
    let ghost orig: Seq<(u64, u64, u64)> = v@;
    let n = v.len();
    let mut i: usize = 0;
    while i < n
        invariant
            v@ == orig,
            orig == old(v)@,
            n == orig.len(),
            i <= n,
            alw_keys_unique(orig),
            forall|k: int| 0 <= k < i ==> !((#[trigger] orig[k]).0 == o && orig[k].1 == p),
        decreases n - i,
    {
        if v[i].0 == o && v[i].1 == p {
            proof {
                lemma_alw_update(orig, i as int, (o, p, amt));
            }
            v.set(i, (o, p, amt));
            return ;
        }
        i = i + 1;
    }
    v.push((o, p, amt));
    proof {
        assert(v@.drop_last() =~= orig);
        assert(v@.last() == (o, p, amt));
        assert forall|x: int, y: int|
            0 <= x < y < v@.len() implies !((#[trigger] v@[x]).0 == (#[trigger] v@[y]).0 && v@[x].1
            == v@[y].1) by {
            if y < v@.len() - 1 {
                assert(v@[x] == orig[x]);
                assert(v@[y] == orig[y]);
            } else {
                assert(v@[x] == orig[x]);
                assert(!(orig[x].0 == o && orig[x].1 == p));
            }
        }
        assert forall|x: u64, y: u64| !(x == o && y == p) implies alw_of(v@, x, y) == alw_of(
            orig,
            x,
            y,
        ) by {
            assert(alw_of(v@, x, y) == alw_of(v@.drop_last(), x, y));
        }
    }
}

} // verus!
