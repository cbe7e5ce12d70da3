//! A small map from names to values, kept as a list of entries in the
//! order they were made. A later entry for a name replaces an earlier one.

use vstd::prelude::*;
use vstd::string::*;

verus! {

/// The map that a list of entries stands for: each entry maps its name to
/// the view of its value, and later entries win.
pub open spec fn entries_map<V: View>(entries: Seq<(String, V)>) -> Map<Seq<char>, V::V>
    decreases entries.len(),
{
    if entries.len() == 0 {
        Map::empty()
    } else {
        entries_map(entries.drop_last()).insert(entries.last().0@, entries.last().1@)
    }
}

/// A name is in the map exactly if some entry has it, and then it maps to
/// the value of the last such entry.
pub proof fn lemma_entries_map<V: View>(entries: Seq<(String, V)>, key: Seq<char>)
    ensures
        entries_map(entries).contains_key(key) <==> exists|i: int|
            0 <= i < entries.len() && (#[trigger] entries[i]).0@ == key,
        forall|i: int|
            0 <= i < entries.len() && (#[trigger] entries[i]).0@ == key && (forall|j: int|
                i < j < entries.len() ==> (#[trigger] entries[j]).0@ != key) ==> entries_map(
                entries,
            )[key] == entries[i].1@,
    decreases entries.len(),
{
    if entries.len() > 0 {
        let front = entries.drop_last();
        lemma_entries_map(front, key);
        if entries.last().0@ == key {
            assert(entries[entries.len() - 1].0@ == key);
        } else {
            if exists|i: int| 0 <= i < entries.len() && (#[trigger] entries[i]).0@ == key {
                let i = choose|i: int| 0 <= i < entries.len() && (#[trigger] entries[i]).0@ == key;
                assert(front[i].0@ == key);
            }
            assert forall|i: int|
                0 <= i < entries.len() && (#[trigger] entries[i]).0@ == key && (forall|j: int|
                    i < j < entries.len() ==> (#[trigger] entries[j]).0@ != key) implies entries_map(
                entries,
            )[key] == entries[i].1@ by {
                assert(front[i].0@ == key);
            }
        }
    }
}

/// A map from names to values.
#[derive(Debug)]
pub struct Table<V> {
    entries: Vec<(String, V)>,
}

impl<V: View> View for Table<V> {
    type V = Map<Seq<char>, V::V>;

    closed spec fn view(&self) -> Map<Seq<char>, V::V> {
        entries_map(self.entries@)
    }
}

impl<V: View> Table<V> {
    /// An empty table.
    pub fn new() -> (table: Table<V>)
        ensures
            table@ == Map::<Seq<char>, V::V>::empty(),
    {
        Table { entries: Vec::new() }
    }

    /// The value that `key` maps to, if any.
    pub fn get(&self, key: &String) -> (r: Option<&V>)
        ensures
            match r {
                Some(value) => self@.contains_key(key@) && self@[key@] == value@,
                None => !self@.contains_key(key@),
            },
    {
        let mut i = self.entries.len();
        while i > 0
            invariant
                i <= self.entries.len(),
                forall|j: int| i <= j < self.entries.len() ==> (#[trigger] self.entries@[j]).0@ != key@,
            decreases i,
        {
            i -= 1;
            if self.entries[i].0 == *key {
                proof {
                    lemma_entries_map(self.entries@, key@);
                }
                return Some(&self.entries[i].1);
            }
        }
        proof {
            lemma_entries_map(self.entries@, key@);
        }
        None
    }

    /// Whether `key` maps to a value.
    pub fn contains(&self, key: &String) -> (r: bool)
        ensures
            r == self@.contains_key(key@),
    {
        self.get(key).is_some()
    }

    /// Maps `key` to `value`, in place of what it mapped to before.
    pub fn insert(&mut self, key: String, value: V)
        ensures
            final(self)@ == old(self)@.insert(key@, value@),
    {
        let ghost before = self.entries@;
        self.entries.push((key, value));
        assert(self.entries@.drop_last() =~= before);
    }
}

} // verus!
