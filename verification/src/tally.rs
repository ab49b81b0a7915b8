//! A running total with its per-caller breakdown.
//!
//! A `Tally` keeps a cumulative amount together with one entry per account,
//! and maintains the invariant that the total equals the sum of all
//! per-account entries.

use vstd::prelude::*;
use crate::address::Address;
use crate::u256::U256;
use crate::u256::u256_bound;

verus! {

/// The count recorded for `k`; 0 where `k` has no entry.
pub open spec fn m_lookup(s: Seq<(Seq<u8>, nat)>, k: Seq<u8>) -> nat
    decreases s.len(),
{
    if s.len() == 0 {
        0
    } else if s[0].0 == k {
        s[0].1
    } else {
        m_lookup(s.skip(1), k)
    }
}

/// The sum of all recorded counts.
pub open spec fn m_total(s: Seq<(Seq<u8>, nat)>) -> nat
    decreases s.len(),
{
    if s.len() == 0 {
        0
    } else {
        s[0].1 + m_total(s.skip(1))
    }
}

/// No two entries share a key.
pub open spec fn m_unique(s: Seq<(Seq<u8>, nat)>) -> bool {
    forall|i: int, j: int| 0 <= i < j < s.len() ==> s[i].0 != s[j].0
}

/// Adds `d` to the count of `k`: updates the entry where one exists, appends
/// one otherwise.
pub open spec fn m_add(s: Seq<(Seq<u8>, nat)>, k: Seq<u8>, d: nat) -> Seq<(Seq<u8>, nat)>
    decreases s.len(),
{
    if s.len() == 0 {
        seq![(k, d)]
    } else if s[0].0 == k {
        seq![(s[0].0, s[0].1 + d)] + s.skip(1)
    } else {
        seq![s[0]] + m_add(s.skip(1), k, d)
    }
}

pub proof fn lemma_m_lookup_at(s: Seq<(Seq<u8>, nat)>, k: Seq<u8>, i: int)
    requires
        0 <= i < s.len(),
        s[i].0 == k,
        forall|j: int| 0 <= j < i ==> s[j].0 != k,
    ensures
        m_lookup(s, k) == s[i].1,
    decreases i,
{
    if i > 0 {
        assert(s[0].0 != k);
        assert(s.skip(1)[i - 1] == s[i]);
        assert(forall|j: int| 0 <= j < i - 1 ==> s.skip(1)[j] == s[j + 1]);
        lemma_m_lookup_at(s.skip(1), k, i - 1);
    }
}

pub proof fn lemma_m_lookup_absent(s: Seq<(Seq<u8>, nat)>, k: Seq<u8>)
    requires
        forall|j: int| 0 <= j < s.len() ==> s[j].0 != k,
    ensures
        m_lookup(s, k) == 0,
    decreases s.len(),
{
    if s.len() > 0 {
        assert(forall|j: int| 0 <= j < s.skip(1).len() ==> s.skip(1)[j] == s[j + 1]);
        lemma_m_lookup_absent(s.skip(1), k);
    }
}

/// Each entry's count is bounded by the total.
pub proof fn lemma_m_lookup_le_total(s: Seq<(Seq<u8>, nat)>, k: Seq<u8>)
    ensures
        m_lookup(s, k) <= m_total(s),
    decreases s.len(),
{
    if s.len() > 0 {
        lemma_m_lookup_le_total(s.skip(1), k);
    }
}

/// Adding to the key found at `i` (first occurrence) is a point update.
pub proof fn lemma_m_add_found(s: Seq<(Seq<u8>, nat)>, k: Seq<u8>, d: nat, i: int)
    requires
        0 <= i < s.len(),
        s[i].0 == k,
        forall|j: int| 0 <= j < i ==> s[j].0 != k,
    ensures
        m_add(s, k, d) =~= s.update(i, (k, s[i].1 + d)),
    decreases i,
{
    if i == 0 {
        assert(seq![(s[0].0, s[0].1 + d)] + s.skip(1) =~= s.update(0, (k, s[0].1 + d)));
    } else {
        assert(s[0].0 != k);
        assert(s.skip(1)[i - 1] == s[i]);
        assert(forall|j: int| 0 <= j < i - 1 ==> s.skip(1)[j] == s[j + 1]);
        lemma_m_add_found(s.skip(1), k, d, i - 1);
        assert(seq![s[0]] + s.skip(1).update(i - 1, (k, s[i].1 + d)) =~= s.update(
            i,
            (k, s[i].1 + d),
        ));
    }
}

/// Adding to an unrecorded key appends its entry.
pub proof fn lemma_m_add_absent(s: Seq<(Seq<u8>, nat)>, k: Seq<u8>, d: nat)
    requires
        forall|j: int| 0 <= j < s.len() ==> s[j].0 != k,
    ensures
        m_add(s, k, d) =~= s.push((k, d)),
    decreases s.len(),
{
    if s.len() == 0 {
        assert(seq![(k, d)] =~= s.push((k, d)));
    } else {
        assert(forall|j: int| 0 <= j < s.skip(1).len() ==> s.skip(1)[j] == s[j + 1]);
        lemma_m_add_absent(s.skip(1), k, d);
        assert(seq![s[0]] + s.skip(1).push((k, d)) =~= s.push((k, d)));
    }
}

/// Adding `d` to any key raises the lookup of that key by `d` and leaves
/// every other key's lookup unchanged.
pub proof fn lemma_m_add_lookup(s: Seq<(Seq<u8>, nat)>, k: Seq<u8>, d: nat, q: Seq<u8>)
    ensures
        m_lookup(m_add(s, k, d), q) == if q == k {
            m_lookup(s, q) + d
        } else {
            m_lookup(s, q)
        },
    decreases s.len(),
{
    if s.len() == 0 {
        let t = seq![(k, d)];
        assert(m_add(s, k, d) == t);
        assert(t.skip(1) =~= Seq::<(Seq<u8>, nat)>::empty());
        assert(m_lookup(Seq::<(Seq<u8>, nat)>::empty(), q) == 0);
        if q == k {
            assert(m_lookup(t, q) == d);
        } else {
            assert(m_lookup(t, q) == m_lookup(t.skip(1), q));
        }
    } else if s[0].0 == k {
        let t = seq![(s[0].0, s[0].1 + d)] + s.skip(1);
        assert(m_add(s, k, d) == t);
        assert(t[0] == (s[0].0, s[0].1 + d));
        assert(t.skip(1) =~= s.skip(1));
        if q == k {
            assert(m_lookup(t, q) == s[0].1 + d);
            assert(m_lookup(s, q) == s[0].1);
        } else {
            assert(m_lookup(t, q) == m_lookup(s.skip(1), q));
            assert(m_lookup(s, q) == m_lookup(s.skip(1), q));
        }
    } else {
        let t = seq![s[0]] + m_add(s.skip(1), k, d);
        assert(m_add(s, k, d) == t);
        assert(t[0] == s[0]);
        assert(t.skip(1) =~= m_add(s.skip(1), k, d));
        lemma_m_add_lookup(s.skip(1), k, d, q);
        if q == s[0].0 {
            assert(m_lookup(t, q) == s[0].1);
            assert(m_lookup(s, q) == s[0].1);
        } else {
            assert(m_lookup(t, q) == m_lookup(m_add(s.skip(1), k, d), q));
            assert(m_lookup(s, q) == m_lookup(s.skip(1), q));
        }
    }
}

/// Adding `d` raises the sum of all counts by `d`.
pub proof fn lemma_m_add_total(s: Seq<(Seq<u8>, nat)>, k: Seq<u8>, d: nat)
    ensures
        m_total(m_add(s, k, d)) == m_total(s) + d,
    decreases s.len(),
{
    if s.len() == 0 {
        let t = seq![(k, d)];
        assert(m_add(s, k, d) == t);
        assert(t.skip(1) =~= Seq::<(Seq<u8>, nat)>::empty());
        assert(m_total(Seq::<(Seq<u8>, nat)>::empty()) == 0);
        assert(m_total(t) == d + m_total(t.skip(1)));
    } else if s[0].0 == k {
        let t = seq![(s[0].0, s[0].1 + d)] + s.skip(1);
        assert(m_add(s, k, d) == t);
        assert(t[0] == (s[0].0, s[0].1 + d));
        assert(t.skip(1) =~= s.skip(1));
        assert(m_total(t) == s[0].1 + d + m_total(s.skip(1)));
        assert(m_total(s) == s[0].1 + m_total(s.skip(1)));
    } else {
        let t = seq![s[0]] + m_add(s.skip(1), k, d);
        assert(m_add(s, k, d) == t);
        assert(t[0] == s[0]);
        assert(t.skip(1) =~= m_add(s.skip(1), k, d));
        lemma_m_add_total(s.skip(1), k, d);
        assert(m_total(t) == s[0].1 + m_total(m_add(s.skip(1), k, d)));
        assert(m_total(s) == s[0].1 + m_total(s.skip(1)));
    }
}

/// Adding keeps keys unique.
pub proof fn lemma_m_add_unique(s: Seq<(Seq<u8>, nat)>, k: Seq<u8>, d: nat)
    requires
        m_unique(s),
    ensures
        m_unique(m_add(s, k, d)),
    decreases s.len(),
{
    if s.len() == 0 {
    } else if s[0].0 == k {
        let t = seq![(s[0].0, s[0].1 + d)] + s.skip(1);
        assert forall|i: int, j: int| 0 <= i < j < t.len() implies t[i].0 != t[j].0 by {
            assert(t[i] == if i == 0 {
                (s[0].0, s[0].1 + d)
            } else {
                s[i]
            });
            assert(t[j] == s[j]);
        }
    } else {
        assert(forall|i: int, j: int|
            0 <= i < j < s.skip(1).len() ==> s.skip(1)[i] == s[i + 1] && s.skip(1)[j] == s[j + 1]);
        lemma_m_add_unique(s.skip(1), k, d);
        let t = seq![s[0]] + m_add(s.skip(1), k, d);
        let u = m_add(s.skip(1), k, d);
        lemma_m_add_keys(s.skip(1), k, d);
        assert forall|i: int, j: int| 0 <= i < j < t.len() implies t[i].0 != t[j].0 by {
            if i == 0 {
                assert(t[j].0 == u[j - 1].0);
            } else {
                assert(t[i].0 == u[i - 1].0 && t[j].0 == u[j - 1].0);
            }
        }
    }
}

/// Every key of the result is a key of the input or the added key.
pub proof fn lemma_m_add_keys(s: Seq<(Seq<u8>, nat)>, k: Seq<u8>, d: nat)
    ensures
        forall|i: int|
            0 <= i < m_add(s, k, d).len() ==> (#[trigger] m_add(s, k, d)[i].0 == k || exists|j: int|
                0 <= j < s.len() && s[j].0 == m_add(s, k, d)[i].0),
    decreases s.len(),
{
    if s.len() == 0 {
    } else if s[0].0 == k {
    } else {
        lemma_m_add_keys(s.skip(1), k, d);
        let t = seq![s[0]] + m_add(s.skip(1), k, d);
        let u = m_add(s.skip(1), k, d);
        assert forall|i: int|
            0 <= i < t.len() implies (#[trigger] t[i].0 == k || exists|j: int|
            0 <= j < s.len() && s[j].0 == t[i].0) by {
            if i == 0 {
                assert(s[0].0 == t[0].0);
            } else {
                assert(t[i] == u[i - 1]);
                if u[i - 1].0 != k {
                    let j = choose|j: int| 0 <= j < s.skip(1).len() && s.skip(1)[j].0 == u[i
                        - 1].0;
                    assert(s[j + 1].0 == t[i].0);
                }
            }
        }
    }
}

/// A running total and its per-account entries.
#[derive(Debug)]
pub struct Tally {
    pub total: U256,
    pub entries: Vec<(Address, U256)>,
}

impl Tally {
    /// The entries as plain values.
    pub open spec fn model(self) -> Seq<(Seq<u8>, nat)> {
        self.entries@.map_values(|e: (Address, U256)| (e.0@, e.1@))
    }

    /// The running total as a plain value.
    pub open spec fn total_val(self) -> nat {
        self.total@
    }

    /// Representation invariant: components well-formed, one entry per
    /// account, and the total equals the sum of all entries.
    pub open spec fn wf(self) -> bool {
        &&& self.total.wf()
        &&& (forall|i: int|
            0 <= i < self.entries@.len() ==> (#[trigger] self.entries@[i]).0.wf()
                && self.entries@[i].1.wf())
        &&& m_unique(self.model())
        &&& self.total@ == m_total(self.model())
    }

    pub fn new() -> (r: Tally)
        ensures
            r.wf(),
            r.total_val() == 0,
            r.model() =~= Seq::<(Seq<u8>, nat)>::empty(),
    {
        Tally { total: U256::zero(), entries: Vec::new() }
    }

    /// The count recorded for `k`; 0 where `k` was never seen.
    pub fn get(&self, k: &Address) -> (r: U256)
        requires
            self.wf(),
            k.wf(),
        ensures
            r.wf(),
            r@ == m_lookup(self.model(), k@),
    {
        let n = self.entries.len();
        let mut i: usize = 0;
        while i < n
            invariant
                self.wf(),
                k.wf(),
                n == self.entries@.len(),
                i <= n,
                forall|j: int| 0 <= j < i ==> self.entries@[j].0@ != k@,
            decreases n - i,
        {
            let e = &self.entries[i];
            if e.0.eq_addr(k) {
                proof {
                    lemma_m_lookup_at(self.model(), k@, i as int);
                }
                return e.1.dup();
            }
            i = i + 1;
        }
        proof {
            lemma_m_lookup_absent(self.model(), k@);
        }
        U256::zero()
    }

    /// Adds `d` both to the total and to `k`'s entry. Fails, changing
    /// nothing, exactly when the new total would leave the 256-bit domain.
    pub fn add(&mut self, k: &Address, d: &U256) -> (r: bool)
        requires
            old(self).wf(),
            k.wf(),
            d.wf(),
        ensures
            final(self).wf(),
            r <==> old(self).total_val() + d@ < u256_bound(),
            r ==> final(self).model() == m_add(old(self).model(), k@, d@),
            r ==> final(self).total_val() == old(self).total_val() + d@,
            !r ==> *final(self) == *old(self),
    {
        let new_total = match self.total.checked_add(d) {
            Some(t) => t,
            None => {
                proof {
                    self.total.lemma_in_range();
                }
                return false;
            },
        };
        let n = self.entries.len();
        let mut i: usize = 0;
        while i < n
            invariant
                self.wf(),
                k.wf(),
                d.wf(),
                *self == *old(self),
                new_total.wf(),
                new_total@ == self.total@ + d@,
                n == self.entries@.len(),
                i <= n,
                forall|j: int| 0 <= j < i ==> self.entries@[j].0@ != k@,
            decreases n - i,
        {
            let e = &self.entries[i];
            if e.0.eq_addr(k) {
                proof {
                    lemma_m_lookup_at(self.model(), k@, i as int);
                    lemma_m_lookup_le_total(self.model(), k@);
                    new_total.lemma_in_range();
                }
                let new_entry = match e.1.checked_add(d) {
                    Some(v) => v,
                    None => {
                        proof {
                            assert(false);
                        }
                        return false;
                    },
                };
                let key = self.entries[i].0.dup();
                proof {
                    lemma_m_add_found(self.model(), k@, d@, i as int);
                    lemma_m_add_total(self.model(), k@, d@);
                    lemma_m_add_unique(self.model(), k@, d@);
                }
                let ghost old_model = self.model();
                self.entries[i] = (key, new_entry);
                self.total = new_total;
                proof {
                    assert(self.model() =~= old_model.update(i as int, (k@, old_model[i as int].1
                        + d@)));
                    assert(self.model() =~= m_add(old(self).model(), k@, d@));
                }
                return true;
            }
            i = i + 1;
        }
        proof {
            new_total.lemma_in_range();
            lemma_m_add_absent(self.model(), k@, d@);
            lemma_m_add_total(self.model(), k@, d@);
            lemma_m_add_unique(self.model(), k@, d@);
        }
        let ghost old_model = self.model();
        self.entries.push((k.dup(), d.dup()));
        self.total = new_total;
        proof {
            assert(self.model() =~= old_model.push((k@, d@)));
            assert(self.model() =~= m_add(old(self).model(), k@, d@));
        }
        true
    }
}

} // verus!
