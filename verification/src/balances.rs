//! The account map that the enclave keeps between rounds: balances by address,
//! held in ascending order of address.

use vstd::prelude::*;
use crate::bytes::{compare_bytes, copy_bytes, lex_lt, lemma_lex_asymmetric, lemma_lex_irreflexive, lemma_lex_total, lemma_lex_transitive, Order};

verus! {

/// One account: its address and what it holds.
pub type EntrySpec = (Seq<u8>, u128);

/// Whether the addresses of `s` ascend strictly.
pub open spec fn ascending(s: Seq<EntrySpec>) -> bool {
    forall|i: int, j: int| 0 <= i < j < s.len() ==> lex_lt(#[trigger] s[i].0, #[trigger] s[j].0)
}

/// Whether `s` holds an account for `key`.
pub open spec fn has_key(s: Seq<EntrySpec>, key: Seq<u8>) -> bool {
    exists|i: int| 0 <= i < s.len() && (#[trigger] s[i]).0 == key
}

/// The place of the account for `key` in `s`.
pub open spec fn index_of(s: Seq<EntrySpec>, key: Seq<u8>) -> int {
    choose|i: int| 0 <= i < s.len() && (#[trigger] s[i]).0 == key
}

/// The map that a list of accounts stands for.
pub open spec fn to_map(s: Seq<EntrySpec>) -> Map<Seq<u8>, u128> {
    Map::new(|k: Seq<u8>| has_key(s, k), |k: Seq<u8>| s[index_of(s, k)].1)
}

/// In an ascending list every account sits at the one place of its address.
pub proof fn lemma_place(s: Seq<EntrySpec>, i: int)
    requires
        ascending(s),
        0 <= i < s.len(),
    ensures
        has_key(s, s[i].0),
        index_of(s, s[i].0) == i,
        to_map(s).contains_key(s[i].0),
        to_map(s)[s[i].0] == s[i].1,
{
    let k = s[i].0;
    assert(s[i].0 == k);
    let j = index_of(s, k);
    if j < i {
        lemma_lex_irreflexive(k);
        assert(lex_lt(s[j].0, s[i].0));
    } else if i < j {
        lemma_lex_irreflexive(k);
        assert(lex_lt(s[i].0, s[j].0));
    }
}

/// A list of accounts as values.
pub open spec fn entry_views(entries: Seq<(Vec<u8>, u128)>) -> Seq<EntrySpec> {
    Seq::new(entries.len(), |i: int| (entries[i].0@, entries[i].1))
}

/// The balances of the accounts, by address.
pub struct Balances {
    entries: Vec<(Vec<u8>, u128)>,
}

impl Balances {
    /// The accounts in ascending order of address.
    pub closed spec fn entries(&self) -> Seq<EntrySpec> {
        Seq::new(self.entries@.len(), |i: int| (self.entries@[i].0@, self.entries@[i].1))
    }

    /// The accounts stand in ascending order of address, so none occurs twice.
    pub open spec fn wf(&self) -> bool {
        ascending(self.entries())
    }

    /// The balances as a map from address to amount.
    pub open spec fn view(&self) -> Map<Seq<u8>, u128> {
        to_map(self.entries())
    }

    /// No accounts.
    pub fn new() -> (r: Balances)
        ensures
            r.wf(),
            r@ == Map::<Seq<u8>, u128>::empty(),
            r.entries() == Seq::<EntrySpec>::empty(),
    {
        let r = Balances { entries: Vec::new() };
        proof {
            assert(r.entries() =~= Seq::<EntrySpec>::empty());
            assert(r@ =~= Map::<Seq<u8>, u128>::empty());
        }
        r
    }

    /// The balances of a list of accounts, if the list is in ascending order of
    /// address.
    pub fn from_entries(entries: Vec<(Vec<u8>, u128)>) -> (r: Option<Balances>)
        ensures
            r.is_some() == ascending(entry_views(entries@)),
            r matches Some(b) ==> b.wf() && b.entries() == entry_views(entries@),
    {
        let ghost views = entry_views(entries@);
        let mut i: usize = 1;
        while i < entries.len()
            invariant
                1 <= i,
                views == entry_views(entries@),
                forall|a: int, b: int|
                    0 <= a < b < i && b < views.len() ==> lex_lt(
                        #[trigger] views[a].0,
                        #[trigger] views[b].0,
                    ),
            decreases entries.len() - i,
        {
            match compare_bytes(entries[i - 1].0.as_slice(), entries[i].0.as_slice()) {
                Order::Before => {},
                _ => {
                    proof {
                        lemma_lex_irreflexive(views[i as int].0);
                        if lex_lt(views[i - 1].0, views[i as int].0) {
                            lemma_lex_asymmetric(views[i - 1].0, views[i as int].0);
                        }
                    }
                    return None;
                },
            }
            proof {
                assert forall|a: int, b: int| 0 <= a < b < i + 1 && b < views.len() implies lex_lt(
                    #[trigger] views[a].0,
                    #[trigger] views[b].0,
                ) by {
                    if b == i && a < i - 1 {
                        assert(lex_lt(views[a].0, views[i - 1].0));
                        lemma_lex_transitive(views[a].0, views[i - 1].0, views[i as int].0);
                    }
                }
            }
            i += 1;
        }
        let r = Balances { entries };
        proof {
            assert(r.entries() =~= views);
        }
        Some(r)
    }

    /// How many accounts there are.
    pub fn len(&self) -> (n: usize)
        ensures
            n == self.entries().len(),
    {
        self.entries.len()
    }

    /// The address of the account at place `i`.
    pub fn key_at(&self, i: usize) -> (k: &Vec<u8>)
        requires
            i < self.entries().len(),
        ensures
            k@ == self.entries()[i as int].0,
    {
        &self.entries[i].0
    }

    /// The amount of the account at place `i`.
    pub fn amount_at(&self, i: usize) -> (v: u128)
        requires
            i < self.entries().len(),
        ensures
            v == self.entries()[i as int].1,
    {
        self.entries[i].1
    }

    /// The first place whose address does not sort before `key`, and whether that
    /// place holds `key` itself.
    fn find(&self, key: &[u8]) -> (r: (usize, bool))
        requires
            self.wf(),
        ensures
            r.0 <= self.entries().len(),
            forall|j: int| 0 <= j < r.0 ==> lex_lt(#[trigger] self.entries()[j].0, key@),
            r.1 ==> r.0 < self.entries().len() && self.entries()[r.0 as int].0 == key@,
            !r.1 ==> forall|j: int|
                r.0 <= j < self.entries().len() ==> lex_lt(key@, #[trigger] self.entries()[j].0),
            r.1 == has_key(self.entries(), key@),
    {
        let ghost s = self.entries();
        let mut i: usize = 0;
        while i < self.entries.len()
            invariant
                i <= self.entries@.len(),
                s == self.entries(),
                ascending(s),
                forall|j: int| 0 <= j < i ==> lex_lt(#[trigger] s[j].0, key@),
            decreases self.entries@.len() - i,
        {
            let o = compare_bytes(self.entries[i].0.as_slice(), key);
            match o {
                Order::Before => {},
                Order::Same => {
                    proof {
                        assert(s[i as int].0 == key@);
                    }
                    return (i, true);
                },
                Order::After => {
                    proof {
                        lemma_lex_total(s[i as int].0, key@);
                        assert forall|j: int| i <= j < s.len() implies lex_lt(
                            key@,
                            #[trigger] s[j].0,
                        ) by {
                            if j > i {
                                assert(lex_lt(s[i as int].0, s[j].0));
                                lemma_lex_transitive(key@, s[i as int].0, s[j].0);
                            }
                        }
                        assert(!has_key(s, key@)) by {
                            if has_key(s, key@) {
                                let j = index_of(s, key@);
                                lemma_lex_irreflexive(key@);
                                if j < i {
                                    assert(lex_lt(s[j].0, key@));
                                } else {
                                    assert(lex_lt(key@, s[j].0));
                                }
                            }
                        }
                    }
                    return (i, false);
                },
            }
            i += 1;
        }
        proof {
            assert(!has_key(s, key@)) by {
                if has_key(s, key@) {
                    let j = index_of(s, key@);
                    lemma_lex_irreflexive(key@);
                    assert(lex_lt(s[j].0, key@));
                }
            }
        }
        (i, false)
    }

    /// What the account of `key` holds, if there is one.
    pub fn get(&self, key: &[u8]) -> (r: Option<u128>)
        requires
            self.wf(),
        ensures
            r == (if self@.contains_key(key@) {
                Some(self@[key@])
            } else {
                None
            }),
    {
        let (i, found) = self.find(key);
        if found {
            proof {
                lemma_place(self.entries(), i as int);
            }
            Some(self.entries[i].1)
        } else {
            None
        }
    }

    /// Sets what the account of `key` holds, opening the account if there is none.
    pub fn set(&mut self, key: &[u8], amount: u128)
        requires
            old(self).wf(),
        ensures
            final(self).wf(),
            final(self)@ == old(self)@.insert(key@, amount),
    {
        let ghost s0 = self.entries();
        let (i, found) = self.find(key);
        if found {
            let k = copy_bytes(key);
            self.entries[i] = (k, amount);
            proof {
                let s1 = self.entries();
                assert(s1 =~= s0.update(i as int, (key@, amount)));
                assert(ascending(s1)) by {
                    assert forall|a: int, b: int| 0 <= a < b < s1.len() implies lex_lt(
                        #[trigger] s1[a].0,
                        #[trigger] s1[b].0,
                    ) by {
                        assert(s1[a].0 == s0[a].0);
                        assert(s1[b].0 == s0[b].0);
                    }
                }
                lemma_update_map(s0, s1, i as int, key@, amount);
            }
        } else {
            let k = copy_bytes(key);
            self.entries.insert(i, (k, amount));
            proof {
                let s1 = self.entries();
                assert(s1 =~= s0.insert(i as int, (key@, amount)));
                assert(ascending(s1)) by {
                    assert forall|a: int, b: int| 0 <= a < b < s1.len() implies lex_lt(
                        #[trigger] s1[a].0,
                        #[trigger] s1[b].0,
                    ) by {
                        if a < i && b > i {
                            assert(s1[a] == s0[a]);
                            assert(s1[b] == s0[b - 1]);
                        } else if a < i && b < i {
                            assert(s1[a] == s0[a]);
                            assert(s1[b] == s0[b]);
                        } else if a > i {
                            assert(s1[a] == s0[a - 1]);
                            assert(s1[b] == s0[b - 1]);
                        } else if a == i {
                            assert(s1[b] == s0[b - 1]);
                        } else {
                            assert(s1[a] == s0[a]);
                        }
                    }
                }
                lemma_insert_map(s0, s1, i as int, key@, amount);
            }
        }
    }

    /// Closes the account of `key` and returns what it held, if there was one.
    pub fn remove(&mut self, key: &[u8]) -> (r: Option<u128>)
        requires
            old(self).wf(),
        ensures
            final(self).wf(),
            final(self)@ == old(self)@.remove(key@),
            r == (if old(self)@.contains_key(key@) {
                Some(old(self)@[key@])
            } else {
                None
            }),
    {
        let ghost s0 = self.entries();
        let (i, found) = self.find(key);
        if found {
            proof {
                lemma_place(s0, i as int);
            }
            let e = self.entries.remove(i);
            proof {
                let s1 = self.entries();
                assert(s1 =~= s0.remove(i as int));
                assert(ascending(s1)) by {
                    assert forall|a: int, b: int| 0 <= a < b < s1.len() implies lex_lt(
                        #[trigger] s1[a].0,
                        #[trigger] s1[b].0,
                    ) by {
                        let a0 = if a < i { a } else { a + 1 };
                        let b0 = if b < i { b } else { b + 1 };
                        assert(s1[a] == s0[a0]);
                        assert(s1[b] == s0[b0]);
                    }
                }
                lemma_remove_map(s0, s1, i as int);
            }
            Some(e.1)
        } else {
            proof {
                assert(self@ =~= self@.remove(key@));
            }
            None
        }
    }

    /// A copy of the balances.
    pub fn duplicate(&self) -> (r: Balances)
        ensures
            r.wf() == self.wf(),
            r@ == self@,
            r.entries() == self.entries(),
    {
        let mut out: Vec<(Vec<u8>, u128)> = Vec::new();
        let mut i: usize = 0;
        while i < self.entries.len()
            invariant
                i <= self.entries@.len(),
                out@.len() == i,
                forall|j: int|
                    0 <= j < i ==> (#[trigger] out@[j]).0@ == self.entries@[j].0@ && out@[j].1
                        == self.entries@[j].1,
            decreases self.entries@.len() - i,
        {
            let k = copy_bytes(self.entries[i].0.as_slice());
            out.push((k, self.entries[i].1));
            i += 1;
        }
        let ghost target = self.entries();
        proof {
            let got = Seq::new(out@.len(), |i: int| (out@[i].0@, out@[i].1));
            assert(got =~= target);
        }
        let r = Balances { entries: out };
        proof {
            assert(r.entries() =~= self.entries());
        }
        r
    }
}

proof fn lemma_update_map(s0: Seq<EntrySpec>, s1: Seq<EntrySpec>, i: int, key: Seq<u8>, amount: u128)
    requires
        ascending(s0),
        ascending(s1),
        0 <= i < s0.len(),
        s0[i].0 == key,
        s1 == s0.update(i, (key, amount)),
    ensures
        to_map(s1) == to_map(s0).insert(key, amount),
{
    let m0 = to_map(s0);
    let m1 = to_map(s1);
    assert forall|k: Seq<u8>| m1.contains_key(k) == m0.insert(key, amount).contains_key(k) by {
        if has_key(s1, k) {
            let j = index_of(s1, k);
            assert(s0[j].0 == k);
        }
        if has_key(s0, k) {
            let j = index_of(s0, k);
            assert(s1[j].0 == k);
        }
        if k == key {
            assert(s1[i].0 == k);
        }
    }
    assert forall|k: Seq<u8>| m1.contains_key(k) implies m1[k] == m0.insert(key, amount)[k] by {
        let j = index_of(s1, k);
        lemma_place(s1, j);
        assert(s0[j].0 == k);
        lemma_place(s0, j);
        lemma_place(s0, i);
        if j != i {
            assert(s1[j] == s0[j]);
        }
    }
    assert(m1 =~= m0.insert(key, amount));
}

proof fn lemma_insert_map(s0: Seq<EntrySpec>, s1: Seq<EntrySpec>, i: int, key: Seq<u8>, amount: u128)
    requires
        ascending(s0),
        ascending(s1),
        0 <= i <= s0.len(),
        !has_key(s0, key),
        s1 == s0.insert(i, (key, amount)),
    ensures
        to_map(s1) == to_map(s0).insert(key, amount),
{
    let m0 = to_map(s0);
    let m1 = to_map(s1);
    assert forall|k: Seq<u8>| m1.contains_key(k) == m0.insert(key, amount).contains_key(k) by {
        if has_key(s1, k) {
            let j = index_of(s1, k);
            if j < i {
                assert(s0[j].0 == k);
            } else if j > i {
                assert(s0[j - 1].0 == k);
            }
        }
        if has_key(s0, k) {
            let j = index_of(s0, k);
            if j < i {
                assert(s1[j].0 == k);
            } else {
                assert(s1[j + 1].0 == k);
            }
        }
        if k == key {
            assert(s1[i].0 == k);
        }
    }
    assert forall|k: Seq<u8>| m1.contains_key(k) implies m1[k] == m0.insert(key, amount)[k] by {
        let j = index_of(s1, k);
        lemma_place(s1, j);
        if j < i {
            assert(s0[j] == s1[j]);
            lemma_place(s0, j);
        } else if j > i {
            assert(s0[j - 1] == s1[j]);
            lemma_place(s0, j - 1);
        }
    }
    assert(m1 =~= m0.insert(key, amount));
}

proof fn lemma_remove_map(s0: Seq<EntrySpec>, s1: Seq<EntrySpec>, i: int)
    requires
        ascending(s0),
        ascending(s1),
        0 <= i < s0.len(),
        s1 == s0.remove(i),
    ensures
        to_map(s1) == to_map(s0).remove(s0[i].0),
{
    let m0 = to_map(s0);
    let m1 = to_map(s1);
    let key = s0[i].0;
    lemma_place(s0, i);
    assert forall|k: Seq<u8>| m1.contains_key(k) == m0.remove(key).contains_key(k) by {
        if has_key(s1, k) {
            let j = index_of(s1, k);
            let j0 = if j < i { j } else { j + 1 };
            assert(s0[j0] == s1[j]);
            lemma_place(s0, j0);
        }
        if has_key(s0, k) && k != key {
            let j = index_of(s0, k);
            let j1 = if j < i { j } else { j - 1 };
            assert(s1[j1].0 == k);
        }
    }
    assert forall|k: Seq<u8>| m1.contains_key(k) implies m1[k] == m0.remove(key)[k] by {
        let j = index_of(s1, k);
        lemma_place(s1, j);
        let j0 = if j < i { j } else { j + 1 };
        assert(s0[j0] == s1[j]);
        lemma_place(s0, j0);
    }
    assert(m1 =~= m0.remove(key));
}

} // verus!
