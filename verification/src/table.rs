//! Exact-key tables: association lists with unique keys, one keyed by byte
//! strings and one keyed by integers.  Each is modelled by the map of its
//! entries.

use vstd::prelude::*;
use crate::hashing::bytes_eq;

verus! {

/// The map holding exactly the listed entries, later entries over earlier.
pub open spec fn byte_entries_map<V>(s: Seq<(Vec<u8>, V)>) -> Map<Seq<u8>, V>
    decreases s.len(),
{
    if s.len() == 0 {
        Map::empty()
    } else {
        byte_entries_map(s.drop_last()).insert(s.last().0@, s.last().1)
    }
}

/// No two entries share a key.
pub open spec fn byte_keys_unique<V>(s: Seq<(Vec<u8>, V)>) -> bool {
    forall|i: int, j: int|
        0 <= i < j < s.len() ==> #[trigger] s[i].0@ != #[trigger] s[j].0@
}

/// Under unique keys, the entry map holds exactly the listed keys, each with
/// its listed value, and its domain is finite with one element per entry.
pub proof fn lemma_byte_entries_map<V>(s: Seq<(Vec<u8>, V)>)
    requires
        byte_keys_unique(s),
    ensures
        byte_entries_map(s).dom().finite(),
        byte_entries_map(s).dom().len() == s.len(),
        forall|i: int|
            0 <= i < s.len() ==> byte_entries_map(s).contains_key(#[trigger] s[i].0@)
                && byte_entries_map(s)[s[i].0@] == s[i].1,
        forall|k: Seq<u8>|
            #[trigger] byte_entries_map(s).contains_key(k) ==> exists|i: int|
                0 <= i < s.len() && #[trigger] s[i].0@ == k,
    decreases s.len(),
{
    if s.len() > 0 {
        let prefix = s.drop_last();
        assert(byte_keys_unique(prefix)) by {
            assert forall|i: int, j: int| 0 <= i < j < prefix.len() implies #[trigger] prefix[i].0@
                != #[trigger] prefix[j].0@ by {
                assert(s[i].0@ != s[j].0@);
            }
        }
        lemma_byte_entries_map(prefix);
        assert(!byte_entries_map(prefix).contains_key(s.last().0@)) by {
            if byte_entries_map(prefix).contains_key(s.last().0@) {
                let i = choose|i: int|
                    0 <= i < prefix.len() && #[trigger] prefix[i].0@ == s.last().0@;
                assert(s[i].0@ == s[s.len() - 1].0@);
            }
        }
        assert forall|i: int| 0 <= i < s.len() implies byte_entries_map(s).contains_key(
            #[trigger] s[i].0@,
        ) && byte_entries_map(s)[s[i].0@] == s[i].1 by {
            if i < s.len() - 1 {
                assert(prefix[i] == s[i]);
                assert(s[i].0@ != s.last().0@);
            }
        }
    }
}

/// An exact-key table keyed by byte strings.
pub struct ByteMap<V> {
    entries: Vec<(Vec<u8>, V)>,
}

impl<V> View for ByteMap<V> {
    type V = Map<Seq<u8>, V>;

    closed spec fn view(&self) -> Map<Seq<u8>, V> {
        byte_entries_map(self.entries@)
    }
}

impl<V> ByteMap<V> {
    /// Keys are pairwise distinct.
    pub closed spec fn wf(&self) -> bool {
        byte_keys_unique(self.entries@)
    }

    /// Number of entries.
    pub closed spec fn spec_len(&self) -> nat {
        self.entries@.len()
    }

    /// The table's size is the size of its map.
    pub proof fn lemma_len(&self)
        requires
            self.wf(),
        ensures
            self@.dom().finite(),
            self@.dom().len() == self.spec_len(),
    {
        lemma_byte_entries_map(self.entries@);
    }

    pub fn new() -> (t: Self)
        ensures
            t.wf(),
            t@ == Map::<Seq<u8>, V>::empty(),
            t.spec_len() == 0,
    {
        ByteMap { entries: Vec::new() }
    }

    pub fn len(&self) -> (n: usize)
        ensures
            n == self.spec_len(),
    {
        self.entries.len()
    }

    /// Index of the entry holding `k`, if any.
    fn find(&self, k: &Vec<u8>) -> (r: Option<usize>)
        requires
            self.wf(),
        ensures
            match r {
                Some(i) => i < self.entries@.len() && self.entries@[i as int].0@ == k@
                    && self@.contains_key(k@) && self@[k@] == self.entries@[i as int].1,
                None => !self@.contains_key(k@),
            },
    {
        proof {
            lemma_byte_entries_map(self.entries@);
        }
        let mut i: usize = 0;
        while i < self.entries.len()
            invariant
                i <= self.entries@.len(),
                self.wf(),
                forall|j: int| 0 <= j < i ==> #[trigger] self.entries@[j].0@ != k@,
            decreases self.entries@.len() - i,
        {
            if bytes_eq(&self.entries[i].0, k) {
                proof {
                    lemma_byte_entries_map(self.entries@);
                }
                return Some(i);
            }
            i = i + 1;
        }
        proof {
            lemma_byte_entries_map(self.entries@);
            if self@.contains_key(k@) {
                let j = choose|j: int|
                    0 <= j < self.entries@.len() && #[trigger] self.entries@[j].0@ == k@;
                assert(false);
            }
        }
        None
    }

    pub fn contains_key(&self, k: &Vec<u8>) -> (r: bool)
        requires
            self.wf(),
        ensures
            r == self@.contains_key(k@),
    {
        self.find(k).is_some()
    }

    pub fn get(&self, k: &Vec<u8>) -> (r: Option<&V>)
        requires
            self.wf(),
        ensures
            match r {
                Some(v) => self@.contains_key(k@) && *v == self@[k@],
                None => !self@.contains_key(k@),
            },
    {
        match self.find(k) {
            Some(i) => Some(&self.entries[i].1),
            None => None,
        }
    }

    /// Stores `v` under `k`, replacing any earlier value.
    pub fn insert(&mut self, k: Vec<u8>, v: V)
        requires
            old(self).wf(),
        ensures
            final(self).wf(),
            final(self)@ == old(self)@.insert(k@, v),
            final(self).spec_len() == old(self).spec_len() + (if old(self)@.contains_key(k@) {
                0int
            } else {
                1int
            }),
    {
        let found = self.find(&k);
        proof {
            lemma_byte_entries_map(self.entries@);
        }
        match found {
            Some(i) => {
                self.entries.set(i, (k, v));
                proof {
                    let oldE = old(self).entries@;
                    let newE = self.entries@;
                    assert forall|a: int, b: int| 0 <= a < b < newE.len() implies #[trigger] newE[a].0@
                        != #[trigger] newE[b].0@ by {
                        assert(newE[a].0@ == oldE[a].0@);
                        assert(newE[b].0@ == oldE[b].0@);
                        assert(oldE[a].0@ != oldE[b].0@);
                    }
                    lemma_byte_entries_map(newE);
                    let target = old(self)@.insert(newE[i as int].0@, v);
                    assert forall|q: Seq<u8>| self@.dom().contains(q)
                        == target.dom().contains(q) by {
                        if self@.contains_key(q) {
                            let a = choose|a: int|
                                0 <= a < newE.len() && #[trigger] newE[a].0@ == q;
                            if a != i {
                                assert(oldE[a].0@ == q);
                                assert(target.contains_key(q));
                            }
                        }
                        if target.contains_key(q) && q != newE[i as int].0@ {
                            let a = choose|a: int|
                                0 <= a < oldE.len() && #[trigger] oldE[a].0@ == q;
                            assert(newE[a].0@ == q);
                            assert(self@.contains_key(q));
                        }
                    }
                    assert(self@.dom() =~= target.dom());
                    assert forall|q: Seq<u8>| target.dom().contains(q) implies self@[q]
                        == target[q] by {
                        let a = choose|a: int|
                            0 <= a < newE.len() && #[trigger] newE[a].0@ == q;
                        assert(self@[q] == newE[a].1);
                        if a == i {
                            assert(target[q] == v);
                        } else {
                            assert(oldE[a].0@ == q && oldE[a].0@ != oldE[i as int].0@);
                            assert(target[q] == oldE[a].1);
                        }
                    }
                    assert(self@ =~= target);
                }
            },
            None => {
                self.entries.push((k, v));
                proof {
                    let oldE = old(self).entries@;
                    let newE = self.entries@;
                    assert forall|a: int, b: int| 0 <= a < b < newE.len() implies #[trigger] newE[a].0@
                        != #[trigger] newE[b].0@ by {
                        if b < newE.len() - 1 {
                            assert(oldE[a].0@ != oldE[b].0@);
                        } else {
                            assert(newE[a].0@ == oldE[a].0@);
                            if newE[a].0@ == newE[b].0@ {
                                assert(old(self)@.contains_key(oldE[a].0@));
                            }
                        }
                    }
                    assert(newE.drop_last() =~= oldE);
                    lemma_byte_entries_map(newE);
                }
            },
        }
    }

    /// Removes and returns the value under `k`, if present.
    pub fn remove(&mut self, k: &Vec<u8>) -> (r: Option<V>)
        requires
            old(self).wf(),
        ensures
            final(self).wf(),
            match r {
                Some(v) => old(self)@.contains_key(k@) && v == old(self)@[k@] && final(self)@
                    == old(self)@.remove(k@) && final(self).spec_len() == old(self).spec_len() - 1,
                None => !old(self)@.contains_key(k@) && final(self)@ == old(self)@
                    && final(self).spec_len() == old(self).spec_len(),
            },
    {
        let found = self.find(k);
        match found {
            Some(i) => {
                let (_, v) = self.entries.remove(i);
                proof {
                    let oldE = old(self).entries@;
                    let newE = self.entries@;
                    assert(newE =~= oldE.remove(i as int));
                    assert forall|a: int, b: int| 0 <= a < b < newE.len() implies #[trigger] newE[a].0@
                        != #[trigger] newE[b].0@ by {
                        let a0 = if a < i { a } else { a + 1 };
                        let b0 = if b < i { b } else { b + 1 };
                        assert(newE[a] == oldE[a0]);
                        assert(newE[b] == oldE[b0]);
                        assert(oldE[a0].0@ != oldE[b0].0@);
                    }
                    lemma_byte_entries_map(oldE);
                    lemma_byte_entries_map(newE);
                    let target = old(self)@.remove(k@);
                    assert forall|q: Seq<u8>| self@.dom().contains(q)
                        == target.dom().contains(q) by {
                        if self@.contains_key(q) {
                            let a = choose|a: int|
                                0 <= a < newE.len() && #[trigger] newE[a].0@ == q;
                            let a0 = if a < i { a } else { a + 1 };
                            assert(newE[a] == oldE[a0]);
                            assert(oldE[a0].0@ != oldE[i as int].0@);
                            assert(target.contains_key(q));
                        }
                        if target.contains_key(q) {
                            let a0 = choose|a0: int|
                                0 <= a0 < oldE.len() && #[trigger] oldE[a0].0@ == q;
                            assert(a0 != i);
                            let a = if a0 < i { a0 } else { a0 - 1 };
                            assert(newE[a] == oldE[a0]);
                            assert(self@.contains_key(q));
                        }
                    }
                    assert(self@.dom() =~= target.dom());
                    assert forall|q: Seq<u8>| target.dom().contains(q) implies self@[q]
                        == target[q] by {
                        let a = choose|a: int|
                            0 <= a < newE.len() && #[trigger] newE[a].0@ == q;
                        let a0 = if a < i { a } else { a + 1 };
                        assert(newE[a] == oldE[a0]);
                        assert(oldE[a0].0@ != oldE[i as int].0@);
                        assert(self@[q] == newE[a].1);
                        assert(target[q] == oldE[a0].1);
                    }
                    assert(self@ =~= target);
                }
                Some(v)
            },
            None => None,
        }
    }

    /// The entry at position `i`, for iteration; the order is unspecified.
    pub fn entry_at(&self, i: usize) -> (r: (&Vec<u8>, &V))
        requires
            self.wf(),
            i < self.spec_len(),
        ensures
            self@.contains_key(r.0@),
            self@[r.0@] == *r.1,
    {
        proof {
            lemma_byte_entries_map(self.entries@);
        }
        (&self.entries[i].0, &self.entries[i].1)
    }
}

/// The integer-keyed map holding exactly the listed entries.
pub open spec fn u64_entries_map<V>(s: Seq<(u64, V)>) -> Map<u64, V>
    decreases s.len(),
{
    if s.len() == 0 {
        Map::empty()
    } else {
        u64_entries_map(s.drop_last()).insert(s.last().0, s.last().1)
    }
}

/// No two entries share a key.
pub open spec fn u64_keys_unique<V>(s: Seq<(u64, V)>) -> bool {
    forall|i: int, j: int|
        0 <= i < j < s.len() ==> #[trigger] s[i].0 != #[trigger] s[j].0
}

/// Under unique keys, the entry map holds exactly the listed keys, each with
/// its listed value, and its domain is finite with one element per entry.
pub proof fn lemma_u64_entries_map<V>(s: Seq<(u64, V)>)
    requires
        u64_keys_unique(s),
    ensures
        u64_entries_map(s).dom().finite(),
        u64_entries_map(s).dom().len() == s.len(),
        forall|i: int|
            0 <= i < s.len() ==> u64_entries_map(s).contains_key(#[trigger] s[i].0)
                && u64_entries_map(s)[s[i].0] == s[i].1,
        forall|k: u64|
            #[trigger] u64_entries_map(s).contains_key(k) ==> exists|i: int|
                0 <= i < s.len() && #[trigger] s[i].0 == k,
    decreases s.len(),
{
    if s.len() > 0 {
        let prefix = s.drop_last();
        assert(u64_keys_unique(prefix)) by {
            assert forall|i: int, j: int| 0 <= i < j < prefix.len() implies #[trigger] prefix[i].0
                != #[trigger] prefix[j].0 by {
                assert(s[i].0 != s[j].0);
            }
        }
        lemma_u64_entries_map(prefix);
        assert(!u64_entries_map(prefix).contains_key(s.last().0)) by {
            if u64_entries_map(prefix).contains_key(s.last().0) {
                let i = choose|i: int|
                    0 <= i < prefix.len() && #[trigger] prefix[i].0 == s.last().0;
                assert(s[i].0 == s[s.len() - 1].0);
            }
        }
        assert forall|i: int| 0 <= i < s.len() implies u64_entries_map(s).contains_key(
            #[trigger] s[i].0,
        ) && u64_entries_map(s)[s[i].0] == s[i].1 by {
            if i < s.len() - 1 {
                assert(prefix[i] == s[i]);
                assert(s[i].0 != s.last().0);
            }
        }
    }
}

/// An exact-key table keyed by integers.
pub struct U64Map<V> {
    entries: Vec<(u64, V)>,
}

impl<V> View for U64Map<V> {
    type V = Map<u64, V>;

    closed spec fn view(&self) -> Map<u64, V> {
        u64_entries_map(self.entries@)
    }
}

impl<V> U64Map<V> {
    /// Keys are pairwise distinct.
    pub closed spec fn wf(&self) -> bool {
        u64_keys_unique(self.entries@)
    }

    /// Number of entries.
    pub closed spec fn spec_len(&self) -> nat {
        self.entries@.len()
    }

    /// The table's size is the size of its map.
    pub proof fn lemma_len(&self)
        requires
            self.wf(),
        ensures
            self@.dom().finite(),
            self@.dom().len() == self.spec_len(),
    {
        lemma_u64_entries_map(self.entries@);
    }

    pub fn new() -> (t: Self)
        ensures
            t.wf(),
            t@ == Map::<u64, V>::empty(),
            t.spec_len() == 0,
    {
        U64Map { entries: Vec::new() }
    }

    pub fn len(&self) -> (n: usize)
        ensures
            n == self.spec_len(),
    {
        self.entries.len()
    }

    /// Index of the entry holding `k`, if any.
    fn find(&self, k: u64) -> (r: Option<usize>)
        requires
            self.wf(),
        ensures
            match r {
                Some(i) => i < self.entries@.len() && self.entries@[i as int].0 == k
                    && self@.contains_key(k) && self@[k] == self.entries@[i as int].1,
                None => !self@.contains_key(k),
            },
    {
        proof {
            lemma_u64_entries_map(self.entries@);
        }
        let mut i: usize = 0;
        while i < self.entries.len()
            invariant
                i <= self.entries@.len(),
                self.wf(),
                forall|j: int| 0 <= j < i ==> #[trigger] self.entries@[j].0 != k,
            decreases self.entries@.len() - i,
        {
            if self.entries[i].0 == k {
                proof {
                    lemma_u64_entries_map(self.entries@);
                }
                return Some(i);
            }
            i = i + 1;
        }
        proof {
            lemma_u64_entries_map(self.entries@);
            if self@.contains_key(k) {
                let j = choose|j: int|
                    0 <= j < self.entries@.len() && #[trigger] self.entries@[j].0 == k;
                assert(false);
            }
        }
        None
    }

    pub fn contains_key(&self, k: u64) -> (r: bool)
        requires
            self.wf(),
        ensures
            r == self@.contains_key(k),
    {
        self.find(k).is_some()
    }

    pub fn get(&self, k: u64) -> (r: Option<&V>)
        requires
            self.wf(),
        ensures
            match r {
                Some(v) => self@.contains_key(k) && *v == self@[k],
                None => !self@.contains_key(k),
            },
    {
        match self.find(k) {
            Some(i) => Some(&self.entries[i].1),
            None => None,
        }
    }

    /// Stores `v` under `k`, replacing any earlier value.
    pub fn insert(&mut self, k: u64, v: V)
        requires
            old(self).wf(),
        ensures
            final(self).wf(),
            final(self)@ == old(self)@.insert(k, v),
            final(self).spec_len() == old(self).spec_len() + (if old(self)@.contains_key(k) {
                0int
            } else {
                1int
            }),
    {
        let found = self.find(k);
        proof {
            lemma_u64_entries_map(self.entries@);
        }
        match found {
            Some(i) => {
                self.entries.set(i, (k, v));
                proof {
                    let oldE = old(self).entries@;
                    let newE = self.entries@;
                    assert forall|a: int, b: int| 0 <= a < b < newE.len() implies #[trigger] newE[a].0
                        != #[trigger] newE[b].0 by {
                        assert(newE[a].0 == oldE[a].0);
                        assert(newE[b].0 == oldE[b].0);
                        assert(oldE[a].0 != oldE[b].0);
                    }
                    lemma_u64_entries_map(newE);
                    let target = old(self)@.insert(newE[i as int].0, v);
                    assert forall|q: u64| self@.dom().contains(q)
                        == target.dom().contains(q) by {
                        if self@.contains_key(q) {
                            let a = choose|a: int|
                                0 <= a < newE.len() && #[trigger] newE[a].0 == q;
                            if a != i {
                                assert(oldE[a].0 == q);
                                assert(target.contains_key(q));
                            }
                        }
                        if target.contains_key(q) && q != newE[i as int].0 {
                            let a = choose|a: int|
                                0 <= a < oldE.len() && #[trigger] oldE[a].0 == q;
                            assert(newE[a].0 == q);
                            assert(self@.contains_key(q));
                        }
                    }
                    assert(self@.dom() =~= target.dom());
                    assert forall|q: u64| target.dom().contains(q) implies self@[q]
                        == target[q] by {
                        let a = choose|a: int|
                            0 <= a < newE.len() && #[trigger] newE[a].0 == q;
                        assert(self@[q] == newE[a].1);
                        if a == i {
                            assert(target[q] == v);
                        } else {
                            assert(oldE[a].0 == q && oldE[a].0 != oldE[i as int].0);
                            assert(target[q] == oldE[a].1);
                        }
                    }
                    assert(self@ =~= target);
                }
            },
            None => {
                self.entries.push((k, v));
                proof {
                    let oldE = old(self).entries@;
                    let newE = self.entries@;
                    assert forall|a: int, b: int| 0 <= a < b < newE.len() implies #[trigger] newE[a].0
                        != #[trigger] newE[b].0 by {
                        if b < newE.len() - 1 {
                            assert(oldE[a].0 != oldE[b].0);
                        } else {
                            assert(newE[a].0 == oldE[a].0);
                            if newE[a].0 == newE[b].0 {
                                assert(old(self)@.contains_key(oldE[a].0));
                            }
                        }
                    }
                    assert(newE.drop_last() =~= oldE);
                    lemma_u64_entries_map(newE);
                }
            },
        }
    }

    /// Removes and returns the value under `k`, if present.
    pub fn remove(&mut self, k: u64) -> (r: Option<V>)
        requires
            old(self).wf(),
        ensures
            final(self).wf(),
            match r {
                Some(v) => old(self)@.contains_key(k) && v == old(self)@[k] && final(self)@
                    == old(self)@.remove(k) && final(self).spec_len() == old(self).spec_len() - 1,
                None => !old(self)@.contains_key(k) && final(self)@ == old(self)@
                    && final(self).spec_len() == old(self).spec_len(),
            },
    {
        let found = self.find(k);
        match found {
            Some(i) => {
                let (_, v) = self.entries.remove(i);
                proof {
                    let oldE = old(self).entries@;
                    let newE = self.entries@;
                    assert(newE =~= oldE.remove(i as int));
                    assert forall|a: int, b: int| 0 <= a < b < newE.len() implies #[trigger] newE[a].0
                        != #[trigger] newE[b].0 by {
                        let a0 = if a < i { a } else { a + 1 };
                        let b0 = if b < i { b } else { b + 1 };
                        assert(newE[a] == oldE[a0]);
                        assert(newE[b] == oldE[b0]);
                        assert(oldE[a0].0 != oldE[b0].0);
                    }
                    lemma_u64_entries_map(oldE);
                    lemma_u64_entries_map(newE);
                    let target = old(self)@.remove(k);
                    assert forall|q: u64| self@.dom().contains(q)
                        == target.dom().contains(q) by {
                        if self@.contains_key(q) {
                            let a = choose|a: int|
                                0 <= a < newE.len() && #[trigger] newE[a].0 == q;
                            let a0 = if a < i { a } else { a + 1 };
                            assert(newE[a] == oldE[a0]);
                            assert(oldE[a0].0 != oldE[i as int].0);
                            assert(target.contains_key(q));
                        }
                        if target.contains_key(q) {
                            let a0 = choose|a0: int|
                                0 <= a0 < oldE.len() && #[trigger] oldE[a0].0 == q;
                            assert(a0 != i);
                            let a = if a0 < i { a0 } else { a0 - 1 };
                            assert(newE[a] == oldE[a0]);
                            assert(self@.contains_key(q));
                        }
                    }
                    assert(self@.dom() =~= target.dom());
                    assert forall|q: u64| target.dom().contains(q) implies self@[q]
                        == target[q] by {
                        let a = choose|a: int|
                            0 <= a < newE.len() && #[trigger] newE[a].0 == q;
                        let a0 = if a < i { a } else { a + 1 };
                        assert(newE[a] == oldE[a0]);
                        assert(oldE[a0].0 != oldE[i as int].0);
                        assert(self@[q] == newE[a].1);
                        assert(target[q] == oldE[a0].1);
                    }
                    assert(self@ =~= target);
                }
                Some(v)
            },
            None => None,
        }
    }

    /// The entry at position `i`, for iteration; the order is unspecified.
    pub fn entry_at(&self, i: usize) -> (r: (u64, &V))
        requires
            self.wf(),
            i < self.spec_len(),
        ensures
            self@.contains_key(r.0),
            self@[r.0] == *r.1,
    {
        proof {
            lemma_u64_entries_map(self.entries@);
        }
        (self.entries[i].0, &self.entries[i].1)
    }
}


} // verus!
