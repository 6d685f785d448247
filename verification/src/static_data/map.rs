//! A table of definitions keyed by name.
use vstd::prelude::*;

verus! {

/// The value stored under `key` (by the last entry with that key).
pub open spec fn entry_lookup<V>(entries: Seq<(String, V)>, key: Seq<char>) -> Option<V>
    decreases entries.len(),
{
    if entries.len() == 0 {
        None
    } else if entries.last().0@ == key {
        Some(entries.last().1)
    } else {
        entry_lookup(entries.drop_last(), key)
    }
}

/// No two entries share a key.
pub open spec fn keys_distinct<V>(entries: Seq<(String, V)>) -> bool {
    forall|i: int, j: int|
        0 <= i < j < entries.len() ==> #[trigger] entries[i].0@ != #[trigger] entries[j].0@
}

/// A name-keyed table that refuses a second definition under a name.
#[derive(Debug)]
pub struct DataMap<V> {
    map: Vec<(String, V)>,
}

impl<V> DataMap<V> {
    /// The entries in insertion order.
    pub closed spec fn entries(self) -> Seq<(String, V)> {
        self.map@
    }

    pub open spec fn spec_get(self, key: Seq<char>) -> Option<V> {
        entry_lookup(self.entries(), key)
    }

    pub open spec fn spec_contains(self, key: Seq<char>) -> bool {
        self.spec_get(key) is Some
    }

    /// An empty table.
    pub fn new() -> (r: DataMap<V>)
        ensures
            r.entries() == Seq::<(String, V)>::empty(),
    {
        DataMap { map: Vec::new() }
    }

    /// The entries, in insertion order.
    pub fn iter(&self) -> (r: &Vec<(String, V)>)
        ensures
            r@ == self.entries(),
    {
        &self.map
    }

    pub fn len(&self) -> (r: usize)
        ensures
            r == self.entries().len(),
    {
        self.map.len()
    }

    /// A table holding the given entries; their keys must be distinct (a
    /// repeated key is refused, as `insert` refuses it).
    pub fn from_map(input: Vec<(String, V)>) -> (r: DataMap<V>)
        requires
            keys_distinct(input@),
        ensures
            r.entries() == input@,
    {
        DataMap { map: input }
    }

    pub fn contains_key(&self, key: &str) -> (r: bool)
        ensures
            r == self.spec_contains(key@),
    {
        match self.get(key) {
            Some(_) => true,
            None => false,
        }
    }

    /// Adds a definition under a name that has none yet.
    pub fn insert(&mut self, key: &String, value: V)
        requires
            !old(self).spec_contains(key@),
        ensures
            final(self).entries() == old(self).entries().push((*key, value)),
            final(self).spec_get(key@) == Some(value),
            forall|k: Seq<char>| k != key@ ==> final(self).spec_get(k) == old(self).spec_get(k),
    {
        let k = key.clone();
        let ghost kk = k;
        self.map.push((k, value));
        proof {
            assert(self.map@.drop_last() =~= old(self).map@);
            assert(kk@ == key@);
        }
    }

    /// The definition stored under `key`.
    pub fn get(&self, key: &str) -> (r: Option<&V>)
        ensures
            match r {
                Some(v) => self.spec_get(key@) == Some(*v),
                None => self.spec_get(key@) is None,
            },
    {
        let k = key.to_owned();
        let mut i: usize = self.map.len();
        assert(self.map@.take(i as int) =~= self.map@);
        while i > 0
            invariant
                i <= self.map@.len(),
                k@ == key@,
                entry_lookup(self.map@, key@) == entry_lookup(self.map@.take(i as int), key@),
            decreases i,
        {
            assert(self.map@.take(i as int).drop_last() =~= self.map@.take(i - 1));
            if self.map[i - 1].0 == k {
                return Some(&self.map[i - 1].1);
            }
            i = i - 1;
        }
        None
    }

    /// A mutable reference to the value of the `i`th entry; its key stays.
    pub fn value_at_mut(&mut self, i: usize) -> (r: &mut V)
        requires
            i < old(self).entries().len(),
        ensures
            *r == old(self).entries()[i as int].1,
            final(self).entries() == old(self).entries().update(
                i as int,
                (old(self).entries()[i as int].0, *final(r)),
            ),
    {
        &mut self.map[i].1
    }
}

/// Reading back a definition that was just inserted gives it, and other
/// names are unaffected.
pub proof fn lemma_insert_get<V>(entries: Seq<(String, V)>, key: String, value: V, other: Seq<char>)
    ensures
        entry_lookup(entries.push((key, value)), key@) == Some(value),
        other != key@ ==> entry_lookup(entries.push((key, value)), other) == entry_lookup(entries, other),
{
    assert(entries.push((key, value)).drop_last() =~= entries);
}

} // verus!
