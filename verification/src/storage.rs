//! The calculator's memory: a mapping from string keys to number bit
//! patterns, written by `sto` and read by `rcl`. The store is modeled as a
//! mathematical map; a later insert for the same key overwrites the earlier
//! value.

use vstd::prelude::*;
use crate::text::str_eq;

verus! {

/// A key/value memory from storage keys to IEEE-754 bit patterns.
pub struct Storage {
    entries: Vec<(String, u64)>,
}

/// The map an entry list denotes: later entries override earlier ones.
pub closed spec fn entries_map(e: Seq<(String, u64)>) -> Map<Seq<char>, u64>
    decreases e.len(),
{
    if e.len() == 0 {
        Map::empty()
    } else {
        entries_map(e.drop_last()).insert(e.last().0@, e.last().1)
    }
}

impl View for Storage {
    type V = Map<Seq<char>, u64>;

    closed spec fn view(&self) -> Map<Seq<char>, u64> {
        entries_map(self.entries@)
    }
}

proof fn lemma_entries_map_get(e: Seq<(String, u64)>, i: int, k: Seq<char>)
    requires
        0 <= i < e.len(),
        e[i].0@ == k,
        forall|j: int| i < j < e.len() ==> e[j].0@ != k,
    ensures
        entries_map(e).contains_key(k),
        entries_map(e)[k] == e[i].1,
    decreases e.len(),
{
    if i == e.len() - 1 {
    } else {
        assert(e.drop_last()[i] == e[i]);
        assert(forall|j: int| i < j < e.drop_last().len() ==> e.drop_last()[j].0@ != k);
        lemma_entries_map_get(e.drop_last(), i, k);
        assert(e.last().0@ != k);
    }
}

proof fn lemma_entries_map_miss(e: Seq<(String, u64)>, k: Seq<char>)
    requires
        forall|j: int| 0 <= j < e.len() ==> e[j].0@ != k,
    ensures
        !entries_map(e).contains_key(k),
    decreases e.len(),
{
    if e.len() > 0 {
        assert(forall|j: int| 0 <= j < e.drop_last().len() ==> e.drop_last()[j].0@ != k);
        lemma_entries_map_miss(e.drop_last(), k);
        assert(e.last().0@ != k);
    }
}

impl Storage {
    /// An empty store.
    pub fn new() -> (s: Storage)
        ensures
            s@ == Map::<Seq<char>, u64>::empty(),
    {
        let s = Storage { entries: Vec::new() };
        proof {
            assert(s@ =~= Map::<Seq<char>, u64>::empty());
        }
        s
    }

    /// Binds `key` to `value`, overwriting any earlier binding.
    pub fn insert(&mut self, key: String, value: u64)
        ensures
            final(self)@ == old(self)@.insert(key@, value),
    {
        self.entries.push((key, value));
        proof {
            assert(self.entries@.drop_last() =~= old(self).entries@);
        }
    }

    /// The value bound to `key`, or `None` when the store holds no binding
    /// for it.
    pub fn get(&self, key: &str) -> (r: Option<u64>)
        ensures
            r == if self@.contains_key(key@) {
                Some(self@[key@])
            } else {
                None::<u64>
            },
    {
        let n = self.entries.len();
        let mut i = n;
        while i > 0
            invariant
                i <= n,
                n == self.entries@.len(),
                forall|j: int| i <= j < n ==> self.entries@[j].0@ != key@,
            decreases i,
        {
            let hit = str_eq(self.entries[i - 1].0.as_str(), key);
            if hit {
                proof {
                    lemma_entries_map_get(self.entries@, i - 1, key@);
                }
                return Some(self.entries[i - 1].1);
            }
            i = i - 1;
        }
        proof {
            lemma_entries_map_miss(self.entries@, key@);
        }
        None
    }
}

} // verus!
