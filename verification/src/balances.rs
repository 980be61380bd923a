//! Account balances, stored as a list of (account, amount) pairs in which
//! each account appears at most once.
//!
//! The spec functions give the list its meaning as a finite map with default
//! zero, and as a total: `sum_amounts` is what the conservation law compares
//! against the ledger's running total supply.

use vstd::prelude::*;

verus! {

/// No account appears in two entries.
pub open spec fn bal_keys_unique(s: Seq<(u64, u64)>) -> bool {
    forall|i: int, j: int| 0 <= i < j < s.len() ==> (#[trigger] s[i]).0 != (#[trigger] s[j]).0
}

/// Some entry carries account `a`.
pub open spec fn bal_has_key(s: Seq<(u64, u64)>, a: u64) -> bool {
    exists|i: int| 0 <= i < s.len() && (#[trigger] s[i]).0 == a
}

/// The balance of account `a`: the amount stored beside it, zero when the
/// account is absent.
pub open spec fn bal_of(s: Seq<(u64, u64)>, a: u64) -> u64
    decreases s.len(),
{
    if s.len() == 0 {
        0u64
    } else if s.last().0 == a {
        s.last().1
    } else {
        bal_of(s.drop_last(), a)
    }
}

/// The sum of all stored amounts.
pub open spec fn sum_amounts(s: Seq<(u64, u64)>) -> int
    decreases s.len(),
{
    if s.len() == 0 {
        0
    } else {
        sum_amounts(s.drop_last()) + s.last().1
    }
}

pub proof fn lemma_sum_nonneg(s: Seq<(u64, u64)>)
    ensures
        sum_amounts(s) >= 0,
    decreases s.len(),
{
    if s.len() > 0 {
        lemma_sum_nonneg(s.drop_last());
    }
}

/// A single account's balance never exceeds the sum of all balances.
pub proof fn lemma_bal_le_sum(s: Seq<(u64, u64)>, a: u64)
    ensures
        bal_of(s, a) <= sum_amounts(s),
    decreases s.len(),
{
    if s.len() > 0 {
        lemma_sum_nonneg(s.drop_last());
        if s.last().0 != a {
            lemma_bal_le_sum(s.drop_last(), a);
        }
    }
}

pub proof fn lemma_keys_unique_drop_last(s: Seq<(u64, u64)>)
    requires
        bal_keys_unique(s),
        s.len() > 0,
    ensures
        bal_keys_unique(s.drop_last()),
{
    assert forall|i: int, j: int|
        0 <= i < j < s.drop_last().len() implies (#[trigger] s.drop_last()[i]).0 != (
    #[trigger] s.drop_last()[j]).0 by {
        assert(s.drop_last()[i] == s[i]);
        assert(s.drop_last()[j] == s[j]);
    }
}

/// With unique keys, the entry at index `i` is the one `bal_of` reads.
pub proof fn lemma_bal_at_index(s: Seq<(u64, u64)>, i: int)
    requires
        bal_keys_unique(s),
        0 <= i < s.len(),
    ensures
        bal_of(s, s[i].0) == s[i].1,
    decreases s.len(),
{
    if i < s.len() - 1 {
        assert(s[i].0 != s[s.len() - 1].0);
        lemma_keys_unique_drop_last(s);
        assert(s.drop_last()[i] == s[i]);
        lemma_bal_at_index(s.drop_last(), i);
    }
}

/// An absent account has balance zero.
pub proof fn lemma_bal_absent(s: Seq<(u64, u64)>, a: u64)
    requires
        !bal_has_key(s, a),
    ensures
        bal_of(s, a) == 0,
    decreases s.len(),
{
    if s.len() > 0 {
        assert(s[s.len() - 1].0 != a);
        assert(!bal_has_key(s.drop_last(), a)) by {
            if bal_has_key(s.drop_last(), a) {
                let k = choose|k: int|
                    0 <= k < s.drop_last().len() && (#[trigger] s.drop_last()[k]).0 == a;
                assert(s[k].0 == a);
            }
        }
        lemma_bal_absent(s.drop_last(), a);
    }
}

/// Replacing the entry at `i` changes the sum by the difference of amounts.
pub proof fn lemma_sum_update(s: Seq<(u64, u64)>, i: int, v: (u64, u64))
    requires
        0 <= i < s.len(),
    ensures
        sum_amounts(s.update(i, v)) == sum_amounts(s) - s[i].1 + v.1,
    decreases s.len(),
{
    let t = s.update(i, v);
    if i == s.len() - 1 {
        assert(t.drop_last() =~= s.drop_last());
    } else {
        assert(t.drop_last() =~= s.drop_last().update(i, v));
        assert(t.last() == s.last());
        lemma_sum_update(s.drop_last(), i, v);
    }
}

/// Replacing the entry at `i` while keeping its key leaves every other
/// account's balance unchanged and gives the key the new amount.
pub proof fn lemma_bal_update(s: Seq<(u64, u64)>, i: int, v: (u64, u64))
    requires
        bal_keys_unique(s),
        0 <= i < s.len(),
        s[i].0 == v.0,
    ensures
        bal_keys_unique(s.update(i, v)),
        bal_of(s.update(i, v), v.0) == v.1,
        forall|b: u64| b != v.0 ==> bal_of(s.update(i, v), b) == bal_of(s, b),
    decreases s.len(),
{
    let t = s.update(i, v);
    assert forall|x: int, y: int| 0 <= x < y < t.len() implies (#[trigger] t[x]).0 != (
    #[trigger] t[y]).0 by {
        assert(t[x].0 == s[x].0);
        assert(t[y].0 == s[y].0);
    }
    if i == s.len() - 1 {
        assert(t.drop_last() =~= s.drop_last());
        assert forall|b: u64| b != v.0 implies bal_of(t, b) == bal_of(s, b) by {
            assert(bal_of(t, b) == bal_of(t.drop_last(), b));
            assert(bal_of(s, b) == bal_of(s.drop_last(), b));
        }
    } else {
        lemma_keys_unique_drop_last(s);
        lemma_bal_update(s.drop_last(), i, v);
        assert(t.drop_last() =~= s.drop_last().update(i, v));
        assert(t.last() == s.last());
        assert forall|b: u64| b != v.0 implies bal_of(t, b) == bal_of(s, b) by {
            if s.last().0 == b {
                assert(bal_of(t, b) == t.last().1);
            } else {
                assert(bal_of(t, b) == bal_of(t.drop_last(), b));
                assert(bal_of(s, b) == bal_of(s.drop_last(), b));
            }
        }
    }
    lemma_bal_at_index(t, i);
}

/// Looks up the balance of account `a`.
pub fn bal_lookup(v: &Vec<(u64, u64)>, a: u64) -> (r: u64)
    requires
        bal_keys_unique(v@),
    ensures
        r == bal_of(v@, a),
{
    let n = v.len();
    let mut i: usize = 0;
    while i < n
        invariant
            n == v@.len(),
            i <= n,
            bal_keys_unique(v@),
            forall|k: int| 0 <= k < i ==> (#[trigger] v@[k]).0 != a,
        decreases n - i,
    {
        if v[i].0 == a {
            proof {
                lemma_bal_at_index(v@, i as int);
            }
            return v[i].1;
        }
        i = i + 1;
    }
    proof {
        assert(!bal_has_key(v@, a));
        lemma_bal_absent(v@, a);
    }
    0
}

/// Stores `amt` as the balance of account `a`, replacing its entry or
/// appending a fresh one.
pub fn bal_store(v: &mut Vec<(u64, u64)>, a: u64, amt: u64)
    requires
        bal_keys_unique(old(v)@),
    ensures
        bal_keys_unique(final(v)@),
        bal_of(final(v)@, a) == amt,
        forall|b: u64| b != a ==> bal_of(final(v)@, b) == bal_of(old(v)@, b),
        sum_amounts(final(v)@) == sum_amounts(old(v)@) - bal_of(old(v)@, a) + amt,
{
    let ghost orig: Seq<(u64, u64)> = v@;
    let n = v.len();
    let mut i: usize = 0;
    while i < n
        invariant
            v@ == orig,
            orig == old(v)@,
            n == orig.len(),
            i <= n,
            bal_keys_unique(orig),
            forall|k: int| 0 <= k < i ==> (#[trigger] orig[k]).0 != a,
        decreases n - i,
    {
        if v[i].0 == a {
            proof {
                lemma_bal_at_index(orig, i as int);
                lemma_sum_update(orig, i as int, (a, amt));
                lemma_bal_update(orig, i as int, (a, amt));
            }
            v.set(i, (a, amt));
            return ;
        }
        i = i + 1;
    }
    proof {
        assert(!bal_has_key(orig, a));
        lemma_bal_absent(orig, a);
    }
    v.push((a, amt));
    proof {
        assert(v@.drop_last() =~= orig);
        assert(v@.last() == (a, amt));
        assert forall|x: int, y: int| 0 <= x < y < v@.len() implies (#[trigger] v@[x]).0 != (
        #[trigger] v@[y]).0 by {
            if y < v@.len() - 1 {
                assert(v@[x] == orig[x]);
                assert(v@[y] == orig[y]);
            } else {
                assert(v@[x] == orig[x]);
                assert(orig[x].0 != a);
            }
        }
        assert forall|b: u64| b != a implies bal_of(v@, b) == bal_of(orig, b) by {
            assert(bal_of(v@, b) == bal_of(v@.drop_last(), b));
        }
    }
}

} // verus!
