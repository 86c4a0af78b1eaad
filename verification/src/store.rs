//! The entity store: an ordered mapping from identifier to record.
//!
//! One generic store type, instantiated once per entity kind. It supports
//! insertion, point lookup, point removal and a full scan in ascending key
//! order. Every mutation replaces a whole record; no record is ever partially
//! updated.

use vstd::prelude::*;
use vstd::std_specs::cmp::OrdSpec;
use vstd::std_specs::iter::IteratorSpec;
use std::collections::BTreeMap;

verus! {

broadcast use vstd::laws_cmp::group_laws_cmp;

/// An ordered identifier-keyed table of records. Its abstract value is the
/// map from identifier to record; scans enumerate that map in ascending key
/// order.
pub struct Table<V> {
    map: BTreeMap<u64, V>,
}

impl<V> View for Table<V> {
    type V = Map<u64, V>;

    closed spec fn view(&self) -> Map<u64, V> {
        self.map@
    }
}

/// A table always holds finitely many records, so the domain of its
/// abstract map is finite.
pub broadcast proof fn lemma_table_view_finite<V>(t: &Table<V>)
    ensures
        #[trigger] t@.dom().finite(),
{
}

impl<V> Table<V> {
    /// An empty table.
    pub fn new() -> (r: Table<V>)
        ensures
            r@ == Map::<u64, V>::empty(),
    {
        Table { map: BTreeMap::new() }
    }

    /// The number of records held.
    pub fn len(&self) -> (r: usize)
        ensures
            r == self@.dom().len(),
    {
        self.map.len()
    }

    /// Stores `value` at `id`, overwriting and returning any record that was
    /// there before.
    pub fn insert(&mut self, id: u64, value: V) -> (prev: Option<V>)
        ensures
            final (self)@ == old(self)@.insert(id, value),
            match prev {
                Some(p) => old(self)@.contains_key(id) && p == old(self)@[id],
                None => !old(self)@.contains_key(id),
            },
    {
        self.map.insert(id, value)
    }

    /// The record at `id`, if any.
    pub fn get(&self, id: u64) -> (r: Option<&V>)
        ensures
            match r {
                Some(v) => self@.contains_key(id) && *v == self@[id],
                None => !self@.contains_key(id),
            },
    {
        self.map.get(&id)
    }

    /// Deletes the record at `id` and returns it, if any.
    pub fn remove(&mut self, id: u64) -> (r: Option<V>)
        ensures
            final (self)@ == old(self)@.remove(id),
            match r {
                Some(v) => old(self)@.contains_key(id) && v == old(self)@[id],
                None => !old(self)@.contains_key(id),
            },
    {
        self.map.remove(&id)
    }

    /// A full scan: every (identifier, record) pair, in ascending identifier
    /// order, one pair for each record held.
    pub fn entries<'a>(&'a self) -> (r: Vec<(u64, &'a V)>)
        ensures
            r@.len() == self@.dom().len(),
            forall|i: int|
                0 <= i < r@.len() ==> #[trigger] self@.contains_key(r@[i].0) && self@[r@[i].0]
                    == *r@[i].1,
            forall|i: int, j: int| 0 <= i < j < r@.len() ==> r@[i].0 < r@[j].0,
            forall|k: u64|
                #[trigger] self@.contains_key(k) ==> exists|i: int|
                    0 <= i < r@.len() && r@[i].0 == k,
    {
        let mut r: Vec<(u64, &'a V)> = Vec::new();
        for pair in it: self.map.iter()
            invariant
                it.seq() == vstd::std_specs::btree::spec_btree_map_iter(&self.map).remaining(),
                r@.len() == it.index(),
                forall|i: int|
                    0 <= i < it.index() ==> r@[i].0 == *(#[trigger] it.seq()[i]).0 && r@[i].1
                        == it.seq()[i].1,
        {
            r.push((*pair.0, pair.1));
        }
        proof {
            let s = vstd::std_specs::btree::spec_btree_map_iter(&self.map).remaining();
            let keys = s.map_values(|kv: (&u64, &V)| *kv.0);
            assert(r@.len() == s.len());
            assert(forall|i: int|
                0 <= i < r@.len() ==> r@[i].0 == *(#[trigger] s[i]).0 && r@[i].1 == s[i].1);
            assert forall|i: int|
                0 <= i < r@.len() implies #[trigger] self@.contains_key(r@[i].0) && self@[r@[i].0]
                == *r@[i].1 by {
                assert(self.map@.contains_key(*s[i].0));
                assert(self.map@[*s[i].0] == *s[i].1);
            }
            assert forall|i: int, j: int| 0 <= i < j < r@.len() implies r@[i].0 < r@[j].0 by {
                assert(keys[i].cmp_spec(&keys[j]) is Less);
            }
            assert forall|k: u64| #[trigger] self@.contains_key(k) implies exists|i: int|
                0 <= i < r@.len() && r@[i].0 == k by {
                assert(s.contains((&k, &self@[k])));
                let i = choose|i: int| 0 <= i < s.len() && s[i] == (&k, &self@[k]);
                assert(r@[i].0 == k);
            }
        }
        r
    }
}

} // verus!
