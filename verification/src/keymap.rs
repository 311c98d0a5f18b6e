//! A small association map from `u64` keys to values, backed by a vector of
//! entries where the latest entry for a key wins. It is the storage primitive
//! for every table of the service registry; its view is a `Map<u64, V>`.

use vstd::prelude::*;

verus! {

/// The map denoted by a sequence of entries: later entries shadow earlier
/// ones with the same key.
pub open spec fn assoc_map<V>(entries: Seq<(u64, V)>) -> Map<u64, V>
    decreases entries.len(),
{
    if entries.len() == 0 {
        Map::empty()
    } else {
        assoc_map(entries.drop_last()).insert(entries.last().0, entries.last().1)
    }
}

/// A key-to-value table with insert-or-overwrite, lookup, and clear.
pub struct KeyMap<V> {
    entries: Vec<(u64, V)>,
}

impl<V> View for KeyMap<V> {
    type V = Map<u64, V>;

    closed spec fn view(&self) -> Map<u64, V> {
        assoc_map(self.entries@)
    }
}

/// Entries at positions `i` and beyond whose keys differ from `key` do not
/// affect what the map holds at `key`.
proof fn lemma_assoc_map_skip_suffix<V>(entries: Seq<(u64, V)>, i: int, key: u64)
    requires
        0 <= i <= entries.len(),
        forall|j: int| i <= j < entries.len() ==> (#[trigger] entries[j]).0 != key,
    ensures
        assoc_map(entries).contains_key(key) <==> assoc_map(entries.take(i)).contains_key(key),
        assoc_map(entries).contains_key(key) ==> assoc_map(entries)[key] == assoc_map(
            entries.take(i),
        )[key],
    decreases entries.len(),
{
    if entries.len() == i {
        assert(entries.take(i) =~= entries);
    } else {
        assert(entries.last() == entries[entries.len() - 1]);
        lemma_assoc_map_skip_suffix(entries.drop_last(), i, key);
        assert(entries.drop_last().take(i) =~= entries.take(i));
    }
}

impl<V: Copy> KeyMap<V> {
    /// An empty table.
    pub fn new() -> (m: Self)
        ensures
            m@ == Map::<u64, V>::empty(),
    {
        KeyMap { entries: Vec::new() }
    }

    /// Inserts `value` under `key`, silently overwriting any earlier binding.
    pub fn insert(&mut self, key: u64, value: V)
        ensures
            final(self)@ == old(self)@.insert(key, value),
    {
        self.entries.push((key, value));
        proof {
            assert(self.entries@.drop_last() =~= old(self).entries@);
        }
    }

    /// Looks the key up; returns the latest binding, if any.
    pub fn get(&self, key: u64) -> (r: Option<V>)
        ensures
            match r {
                Some(v) => self@.contains_key(key) && v == self@[key],
                None => !self@.contains_key(key),
            },
    {
        let mut i: usize = self.entries.len();
        while i > 0
            invariant
                i <= self.entries.len(),
                forall|j: int|
                    i <= j < self.entries@.len() ==> (#[trigger] self.entries@[j]).0 != key,
            decreases i,
        {
            i = i - 1;
            if self.entries[i].0 == key {
                proof {
                    lemma_assoc_map_skip_suffix(self.entries@, i + 1, key);
                    assert(self.entries@.take(i + 1).last() == self.entries@[i as int]);
                }
                return Some(self.entries[i].1);
            }
        }
        proof {
            lemma_assoc_map_skip_suffix(self.entries@, 0, key);
            assert(self.entries@.take(0) =~= Seq::<(u64, V)>::empty());
        }
        None
    }

    /// Removes every binding.
    pub fn clear(&mut self)
        ensures
            final(self)@ == Map::<u64, V>::empty(),
    {
        self.entries = Vec::new();
    }
}

} // verus!
