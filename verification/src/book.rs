//! Address-keyed balance books.
//!
//! A book holds one unsigned balance per address, with every absent
//! address owning zero.  It underlies both the native-currency ledger on
//! the sending chain and the bridged-token ledger on the receiving chain.

use vstd::prelude::*;

use crate::addr::Addr;
use crate::errors::TransactionError;

verus! {

/// Looks an address up in a list of entries; the newest entry wins.
pub open spec fn keyed(s: Seq<(Addr, u64)>, a: Addr) -> Option<u64>
    decreases s.len(),
{
    if s.len() == 0 {
        None
    } else if s.last().0 == a {
        Some(s.last().1)
    } else {
        keyed(s.drop_last(), a)
    }
}

/// The balance of `a` in the entries `s`: its entry, or zero.
pub open spec fn bal(s: Seq<(Addr, u64)>, a: Addr) -> u64 {
    match keyed(s, a) {
        Some(v) => v,
        None => 0,
    }
}

/// The sum of all balances in the entries `s`.
pub open spec fn total(s: Seq<(Addr, u64)>) -> int
    decreases s.len(),
{
    if s.len() == 0 {
        0
    } else {
        total(s.drop_last()) + s.last().1
    }
}

/// No two entries share an address.
pub open spec fn unique_keys(s: Seq<(Addr, u64)>) -> bool {
    forall|i: int, j: int| 0 <= i < j < s.len() ==> (#[trigger] s[i]).0 != (#[trigger] s[j]).0
}

/// With unique keys, the entry at any index is what lookup finds.
proof fn lemma_keyed_at(s: Seq<(Addr, u64)>, i: int)
    requires
        unique_keys(s),
        0 <= i < s.len(),
    ensures
        keyed(s, s[i].0) == Some(s[i].1),
    decreases s.len(),
{
    if i == s.len() - 1 {
    } else {
        assert(s.last().0 != s[i].0);
        let t = s.drop_last();
        assert(unique_keys(t));
        assert(t[i] == s[i]);
        lemma_keyed_at(t, i);
    }
}

/// An address on no entry has no balance.
proof fn lemma_keyed_absent(s: Seq<(Addr, u64)>, a: Addr)
    requires
        forall|i: int| 0 <= i < s.len() ==> (#[trigger] s[i]).0 != a,
    ensures
        keyed(s, a) is None,
    decreases s.len(),
{
    if s.len() > 0 {
        let t = s.drop_last();
        assert(forall|i: int| 0 <= i < t.len() ==> (#[trigger] t[i]).0 != a);
        lemma_keyed_absent(t, a);
    }
}

/// Overwriting the entry at index `i` changes exactly its own address's
/// balance.
proof fn lemma_keyed_update(s: Seq<(Addr, u64)>, i: int, v: u64, a: Addr)
    requires
        unique_keys(s),
        0 <= i < s.len(),
    ensures
        keyed(s.update(i, (s[i].0, v)), a) == if a == s[i].0 {
            Some(v)
        } else {
            keyed(s, a)
        },
        unique_keys(s.update(i, (s[i].0, v))),
    decreases s.len(),
{
    let u = s.update(i, (s[i].0, v));
    assert(forall|j: int| 0 <= j < s.len() ==> (#[trigger] u[j]).0 == s[j].0);
    if i == s.len() - 1 {
        assert(u.last() == (s[i].0, v));
        assert(u.drop_last() =~= s.drop_last());
        if a != s[i].0 {
            assert(keyed(s, a) == keyed(s.drop_last(), a));
        }
    } else {
        assert(u.last() == s.last());
        let t = s.drop_last();
        assert(unique_keys(t));
        assert(t[i] == s[i]);
        assert(u.drop_last() =~= t.update(i, (t[i].0, v)));
        lemma_keyed_update(t, i, v, a);
        if s.last().0 == a {
            assert(s[i].0 != a);
        }
    }
}

/// Overwriting the entry at index `i` shifts the sum by the difference.
proof fn lemma_total_update(s: Seq<(Addr, u64)>, i: int, v: u64)
    requires
        0 <= i < s.len(),
    ensures
        total(s.update(i, (s[i].0, v))) == total(s) - s[i].1 + v,
    decreases s.len(),
{
    let u = s.update(i, (s[i].0, v));
    if i == s.len() - 1 {
        assert(u.drop_last() =~= s.drop_last());
    } else {
        let t = s.drop_last();
        assert(u.drop_last() =~= t.update(i, (t[i].0, v)));
        assert(t[i] == s[i]);
        lemma_total_update(t, i, v);
        assert(u.last() == s.last());
    }
}

/// A balance never exceeds the sum of all balances.
pub proof fn lemma_bal_le_total(s: Seq<(Addr, u64)>, a: Addr)
    requires
        unique_keys(s),
    ensures
        bal(s, a) <= total(s),
        total(s) >= 0,
    decreases s.len(),
{
    if s.len() > 0 {
        let t = s.drop_last();
        assert(unique_keys(t));
        lemma_bal_le_total(t, a);
        if s.last().0 != a {
            assert(keyed(s, a) == keyed(t, a));
        }
    }
}

/// A book of balances, one per address; addresses never mentioned own
/// zero.
pub struct AccountBook {
    pub entries: Vec<(Addr, u64)>,
}

impl AccountBook {
    /// Entries are well-formed: one entry per address.
    pub open spec fn wf(self) -> bool {
        unique_keys(self.entries@)
    }

    /// The balance of `a`.
    pub open spec fn spec_bal(self, a: Addr) -> u64 {
        bal(self.entries@, a)
    }

    /// The sum of all balances.
    pub open spec fn spec_total(self) -> int {
        total(self.entries@)
    }

    /// An empty book: every address owns zero.
    pub fn new() -> (r: AccountBook)
        ensures
            r.wf(),
            r.entries@ == Seq::<(Addr, u64)>::empty(),
            r.spec_total() == 0,
    {
        AccountBook { entries: Vec::new() }
    }

    /// Finds the index of `a`'s entry, if it has one.
    fn find_index(&self, a: Addr) -> (r: Option<usize>)
        ensures
            r matches Some(i) ==> i < self.entries@.len() && self.entries@[i as int].0 == a,
            r is None ==> forall|i: int|
                0 <= i < self.entries@.len() ==> (#[trigger] self.entries@[i]).0 != a,
    {
        let mut i: usize = 0;
        while i < self.entries.len()
            invariant
                i <= self.entries@.len(),
                forall|j: int| 0 <= j < i ==> (#[trigger] self.entries@[j]).0 != a,
            decreases self.entries@.len() - i,
        {
            if self.entries[i].0 == a {
                return Some(i);
            }
            i = i + 1;
        }
        None
    }

    /// Reads the balance of `a`.
    pub fn balance_of(&self, a: Addr) -> (r: u64)
        requires
            self.wf(),
        ensures
            r == self.spec_bal(a),
    {
        match self.find_index(a) {
            Some(i) => {
                proof {
                    lemma_keyed_at(self.entries@, i as int);
                }
                self.entries[i].1
            },
            None => {
                proof {
                    lemma_keyed_absent(self.entries@, a);
                }
                0
            },
        }
    }

    /// Adds `amt` to the balance of `a`; the ledger rejects an update that
    /// would overflow the stored balance.
    pub fn credit(&mut self, a: Addr, amt: u64) -> (r: Result<(), TransactionError>)
        requires
            old(self).wf(),
        ensures
            final(self).wf(),
            old(self).spec_bal(a) + amt <= u64::MAX ==> {
                &&& r is Ok
                &&& final(self).spec_bal(a) == old(self).spec_bal(a) + amt
                &&& forall|b: Addr| b != a ==> final(self).spec_bal(b) == old(self).spec_bal(b)
                &&& final(self).spec_total() == old(self).spec_total() + amt
            },
            old(self).spec_bal(a) + amt > u64::MAX ==> {
                &&& r is Err
                &&& *final(self) == *old(self)
            },
    {
        match self.find_index(a) {
            Some(i) => {
                proof {
                    lemma_keyed_at(self.entries@, i as int);
                }
                let cur = self.entries[i].1;
                if amt <= u64::MAX - cur {
                    proof {
                        assert forall|b: Addr| true implies keyed(
                            self.entries@.update(i as int, (a, (cur + amt) as u64)),
                            b,
                        ) == (if b == a {
                            Some((cur + amt) as u64)
                        } else {
                            keyed(self.entries@, b)
                        }) by {
                            lemma_keyed_update(self.entries@, i as int, (cur + amt) as u64, b);
                        }
                        lemma_keyed_update(self.entries@, i as int, (cur + amt) as u64, a);
                        lemma_total_update(self.entries@, i as int, (cur + amt) as u64);
                    }
                    self.entries.set(i, (a, cur + amt));
                    Ok(())
                } else {
                    Err(TransactionError {})
                }
            },
            None => {
                proof {
                    lemma_keyed_absent(self.entries@, a);
                    let p = self.entries@.push((a, amt));
                    assert(p.drop_last() =~= self.entries@);
                    assert forall|b: Addr| b != a implies keyed(p, b) == keyed(
                        self.entries@,
                        b,
                    ) by {}
                    assert(forall|j: int| 0 <= j < p.len() - 1 ==> (#[trigger] p[j]) == self.entries@[j]);
                }
                self.entries.push((a, amt));
                Ok(())
            },
        }
    }

    /// Removes `amt` from the balance of `a`; the ledger rejects an update
    /// that would overdraw it.
    pub fn debit(&mut self, a: Addr, amt: u64) -> (r: Result<(), TransactionError>)
        requires
            old(self).wf(),
        ensures
            final(self).wf(),
            amt <= old(self).spec_bal(a) ==> {
                &&& r is Ok
                &&& final(self).spec_bal(a) == old(self).spec_bal(a) - amt
                &&& forall|b: Addr| b != a ==> final(self).spec_bal(b) == old(self).spec_bal(b)
                &&& final(self).spec_total() == old(self).spec_total() - amt
            },
            amt > old(self).spec_bal(a) ==> {
                &&& r is Err
                &&& *final(self) == *old(self)
            },
    {
        match self.find_index(a) {
            Some(i) => {
                proof {
                    lemma_keyed_at(self.entries@, i as int);
                }
                let cur = self.entries[i].1;
                if amt <= cur {
                    proof {
                        assert forall|b: Addr| true implies keyed(
                            self.entries@.update(i as int, (a, (cur - amt) as u64)),
                            b,
                        ) == (if b == a {
                            Some((cur - amt) as u64)
                        } else {
                            keyed(self.entries@, b)
                        }) by {
                            lemma_keyed_update(self.entries@, i as int, (cur - amt) as u64, b);
                        }
                        lemma_total_update(self.entries@, i as int, (cur - amt) as u64);
                    }
                    self.entries.set(i, (a, cur - amt));
                    Ok(())
                } else {
                    Err(TransactionError {})
                }
            },
            None => {
                proof {
                    lemma_keyed_absent(self.entries@, a);
                }
                if amt == 0 {
                    Ok(())
                } else {
                    Err(TransactionError {})
                }
            },
        }
    }
}

} // verus!
