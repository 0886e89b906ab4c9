//! A small association table with a mathematical `Map` view.
//!
//! The registry needs a few maps keyed by type keys.  Those keys are structs
//! whose identity is defined by their view (marker multisets collapse to
//! sets), so the table is kept as a vector of pairs with pairwise distinct
//! key views, searched with the keys' own equality test.

use vstd::prelude::*;

verus! {

/// A key type whose executable equality test decides equality of views.
pub trait KeyEq: View + Sized {
    /// Whether `self` and `other` are the same key.
    fn key_eq(&self, other: &Self) -> (r: bool)
        ensures
            r == (self@ == other@),
    ;
}

/// The map described by an association list: later entries win, though the
/// table never holds two entries with one key.
pub open spec fn assoc_map<K: View, V: View>(s: Seq<(K, V)>) -> Map<K::V, V::V>
    decreases s.len(),
{
    if s.len() == 0 {
        Map::empty()
    } else {
        assoc_map(s.drop_last()).insert(s.last().0@, s.last().1@)
    }
}

/// An association table from keys to values, with pairwise distinct keys.
pub struct Table<K, V> {
    entries: Vec<(K, V)>,
}

impl<K: KeyEq, V: View> Table<K, V> {
    /// The table as a mathematical map.
    pub closed spec fn map(self) -> Map<K::V, V::V> {
        assoc_map(self.entries@)
    }

    /// The keys are pairwise distinct.
    pub closed spec fn wf(self) -> bool {
        forall|i: int, j: int|
            0 <= i < j < self.entries@.len() ==> self.entries@[i].0@ != self.entries@[j].0@
    }

    proof fn lemma_assoc_map_entry(s: Seq<(K, V)>, i: int)
        requires
            0 <= i < s.len(),
            forall|p: int, q: int| 0 <= p < q < s.len() ==> s[p].0@ != s[q].0@,
        ensures
            assoc_map(s).contains_key(s[i].0@),
            assoc_map(s)[s[i].0@] == s[i].1@,
        decreases s.len(),
    {
        if i == s.len() - 1 {
        } else {
            assert(s.drop_last()[i] == s[i]);
            Self::lemma_assoc_map_entry(s.drop_last(), i);
        }
    }

    proof fn lemma_assoc_map_absent(s: Seq<(K, V)>, k: K::V)
        requires
            forall|j: int| 0 <= j < s.len() ==> s[j].0@ != k,
        ensures
            !assoc_map(s).contains_key(k),
        decreases s.len(),
    {
        if s.len() > 0 {
            Self::lemma_assoc_map_absent(s.drop_last(), k);
        }
    }

    /// An empty table.
    pub fn new() -> (r: Table<K, V>)
        ensures
            r.wf(),
            r.map() == Map::<K::V, V::V>::empty(),
    {
        Table { entries: Vec::new() }
    }

    /// The index of the entry with key `k`, if the table holds one.
    fn find(&self, k: &K) -> (r: Option<usize>)
        ensures
            match r {
                Some(i) => i < self.entries@.len() && self.entries@[i as int].0@ == k@,
                None => forall|j: int| 0 <= j < self.entries@.len() ==> self.entries@[j].0@ != k@,
            },
    {
        let mut i: usize = 0;
        while i < self.entries.len()
            invariant
                0 <= i <= self.entries@.len(),
                forall|j: int| 0 <= j < i ==> self.entries@[j].0@ != k@,
            decreases self.entries@.len() - i,
        {
            if self.entries[i].0.key_eq(k) {
                return Some(i);
            }
            i += 1;
        }
        None
    }

    /// Whether the table holds an entry for `k`.
    pub fn contains(&self, k: &K) -> (r: bool)
        requires
            self.wf(),
        ensures
            r == self.map().contains_key(k@),
    {
        let found = self.find(k);
        proof {
            match found {
                Some(i) => Self::lemma_assoc_map_entry(self.entries@, i as int),
                None => Self::lemma_assoc_map_absent(self.entries@, k@),
            }
        }
        found.is_some()
    }

    /// The value stored under `k`, if any.
    pub fn get(&self, k: &K) -> (r: Option<&V>)
        requires
            self.wf(),
        ensures
            match r {
                Some(v) => self.map().contains_key(k@) && v@ == self.map()[k@],
                None => !self.map().contains_key(k@),
            },
    {
        let found = self.find(k);
        proof {
            match found {
                Some(i) => Self::lemma_assoc_map_entry(self.entries@, i as int),
                None => Self::lemma_assoc_map_absent(self.entries@, k@),
            }
        }
        match found {
            Some(i) => Some(&self.entries[i].1),
            None => None,
        }
    }

    /// Records `v` under `k` if `k` is absent; an entry already present is
    /// left as it is, since registrations are idempotent.
    pub fn insert(&mut self, k: K, v: V)
        requires
            old(self).wf(),
        ensures
            final(self).wf(),
            final(self).map() == if old(self).map().contains_key(k@) {
                old(self).map()
            } else {
                old(self).map().insert(k@, v@)
            },
    {
        let found = self.find(&k);
        proof {
            match found {
                Some(i) => Self::lemma_assoc_map_entry(self.entries@, i as int),
                None => Self::lemma_assoc_map_absent(self.entries@, k@),
            }
        }
        if found.is_none() {
            let ghost before = self.entries@;
            self.entries.push((k, v));
            proof {
                assert(self.entries@.drop_last() =~= before);
            }
        }
    }
}

} // verus!
