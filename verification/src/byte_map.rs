//! A map from byte strings to values, kept as a list that is searched from
//! the front. It stands for one key space of the persisted ledger.

use vstd::prelude::*;
use crate::bytes::{bytes_eq, copy_bytes};

verus! {

struct Entry<V> {
    key: Vec<u8>,
    value: V,
}

/// A map from byte strings to values. Entries are never removed: a key that
/// was written stays, and a second write to it replaces the value.
pub struct ByteMap<V> {
    entries: Vec<Entry<V>>,
}

/// What a search for `key` finds in `entries` from index `from` on: the value
/// of the first entry with that key.
spec fn lookup_from<V: View>(entries: Seq<Entry<V>>, key: Seq<u8>, from: int) -> Option<V::V>
    decreases entries.len() - from,
{
    if from < 0 || from >= entries.len() {
        None
    } else if entries[from].key@ == key {
        Some(entries[from].value@)
    } else {
        lookup_from(entries, key, from + 1)
    }
}

/// Replacing the value of the first entry with a key changes what is found
/// under that key, and under no other.
proof fn lemma_lookup_after_replace<V: View>(
    entries: Seq<Entry<V>>,
    at: int,
    entry: Entry<V>,
    key: Seq<u8>,
    from: int,
)
    requires
        0 <= from,
        0 <= at < entries.len(),
        entries[at].key@ == entry.key@,
    ensures
        key != entry.key@ ==> lookup_from(entries.update(at, entry), key, from) == lookup_from(
            entries,
            key,
            from,
        ),
        key == entry.key@ && from <= at && (forall|j: int| from <= j < at ==> entries[j].key@
            != key) ==> lookup_from(entries.update(at, entry), key, from) == Some(entry.value@),
    decreases entries.len() - from,
{
    if from < entries.len() {
        lemma_lookup_after_replace(entries, at, entry, key, from + 1);
    }
}

/// An entry added at the end is found under its key where nothing was found
/// before, and changes nothing else.
proof fn lemma_lookup_after_push<V: View>(
    entries: Seq<Entry<V>>,
    entry: Entry<V>,
    key: Seq<u8>,
    from: int,
)
    requires
        0 <= from,
    ensures
        lookup_from(entries.push(entry), key, from) == match lookup_from(entries, key, from) {
            Some(value) => Some(value),
            None => if key == entry.key@ && from <= entries.len() {
                Some(entry.value@)
            } else {
                None
            },
        },
    decreases entries.len() - from,
{
    let pushed = entries.push(entry);
    if from < entries.len() {
        lemma_lookup_after_push(entries, entry, key, from + 1);
        assert(pushed[from] == entries[from]);
    } else if from == entries.len() {
        assert(pushed[from] == entry);
        assert(lookup_from(pushed, key, from + 1) is None);
    }
}

/// A key is found exactly if some entry carries it.
proof fn lemma_lookup_finds_entries<V: View>(entries: Seq<Entry<V>>, key: Seq<u8>, from: int)
    requires
        0 <= from,
    ensures
        lookup_from(entries, key, from) is Some <==> exists|j: int|
            from <= j < entries.len() && (#[trigger] entries[j]).key@ == key,
    decreases entries.len() - from,
{
    if from < entries.len() {
        lemma_lookup_finds_entries(entries, key, from + 1);
        if entries[from].key@ != key {
            if lookup_from(entries, key, from) is Some {
                let j = choose|j: int|
                    from + 1 <= j < entries.len() && (#[trigger] entries[j]).key@ == key;
                assert(from <= j < entries.len() && entries[j].key@ == key);
            }
        } else {
            assert(from <= from < entries.len() && entries[from].key@ == key);
        }
    }
}

impl<V: View> View for ByteMap<V> {
    type V = Map<Seq<u8>, V::V>;

    closed spec fn view(&self) -> Map<Seq<u8>, V::V> {
        Map::new(
            |key: Seq<u8>| lookup_from(self.entries@, key, 0) is Some,
            |key: Seq<u8>| lookup_from(self.entries@, key, 0)->Some_0,
        )
    }
}

impl<V: View> ByteMap<V> {
    /// A map that holds nothing.
    pub fn new() -> (map: Self)
        ensures
            map@ == Map::<Seq<u8>, V::V>::empty(),
    {
        let map = ByteMap { entries: Vec::new() };
        assert(map@ =~= Map::<Seq<u8>, V::V>::empty());
        map
    }

    /// The index of the first entry with `key`.
    fn find(&self, key: &Vec<u8>) -> (found: Option<usize>)
        ensures
            match found {
                Some(at) => {
                    &&& at < self.entries.len()
                    &&& self.entries[at as int].key@ == key@
                    &&& forall|j: int| 0 <= j < at ==> self.entries[j].key@ != key@
                    &&& lookup_from(self.entries@, key@, 0) == Some(self.entries[at as int].value@)
                },
                None => lookup_from(self.entries@, key@, 0) is None,
            },
    {
        let mut at: usize = 0;
        while at < self.entries.len()
            invariant
                at <= self.entries.len(),
                forall|j: int| 0 <= j < at ==> self.entries[j].key@ != key@,
                lookup_from(self.entries@, key@, 0) == lookup_from(self.entries@, key@, at as int),
            decreases self.entries.len() - at,
        {
            if bytes_eq(&self.entries[at].key, key) {
                return Some(at);
            }
            at = at + 1;
        }
        None
    }

    /// The value kept under `key`, if there is one.
    pub fn get(&self, key: &Vec<u8>) -> (value: Option<&V>)
        ensures
            match value {
                Some(value) => self@.contains_key(key@) && self@[key@] == value@,
                None => !self@.contains_key(key@),
            },
    {
        match self.find(key) {
            Some(at) => Some(&self.entries[at].value),
            None => None,
        }
    }

    /// Keeps `value` under `key`, in place of what was kept there before.
    pub fn insert(&mut self, key: Vec<u8>, value: V)
        ensures
            final(self)@ == old(self)@.insert(key@, value@),
    {
        let ghost before = self.entries@;
        let ghost written = Entry { key, value };
        match self.find(&key) {
            Some(at) => {
                self.entries.set(at, Entry { key, value });
                assert forall|k: Seq<u8>|
                    lookup_from(self.entries@, k, 0) == (if k == written.key@ {
                        Some(written.value@)
                    } else {
                        lookup_from(before, k, 0)
                    }) by {
                    lemma_lookup_after_replace(before, at as int, written, k, 0);
                }
            },
            None => {
                self.entries.push(Entry { key, value });
                assert forall|k: Seq<u8>|
                    lookup_from(self.entries@, k, 0) == (if k == written.key@ {
                        Some(written.value@)
                    } else {
                        lookup_from(before, k, 0)
                    }) by {
                    lemma_lookup_after_push(before, written, k, 0);
                }
            },
        }
        assert(self@ =~= old(self)@.insert(key@, value@));
    }

    /// The keys under which something is kept.
    pub fn keys(&self) -> (keys: Vec<Vec<u8>>)
        ensures
            forall|key: Seq<u8>|
                self@.contains_key(key) <==> exists|i: int|
                    0 <= i < keys.len() && (#[trigger] keys[i])@ == key,
    {
        let mut keys: Vec<Vec<u8>> = Vec::new();
        let mut at: usize = 0;
        while at < self.entries.len()
            invariant
                at <= self.entries.len(),
                keys.len() == at,
                forall|i: int| 0 <= i < at ==> (#[trigger] keys[i])@ == self.entries[i].key@,
            decreases self.entries.len() - at,
        {
            keys.push(copy_bytes(&self.entries[at].key));
            at = at + 1;
        }
        assert forall|key: Seq<u8>|
            self@.contains_key(key) <==> exists|i: int|
                0 <= i < keys.len() && (#[trigger] keys[i])@ == key by {
            lemma_lookup_finds_entries(self.entries@, key, 0);
            if self@.contains_key(key) {
                let j = choose|j: int|
                    0 <= j < self.entries.len() && (#[trigger] self.entries[j]).key@ == key;
                assert(keys[j]@ == key);
            }
            if exists|i: int| 0 <= i < keys.len() && (#[trigger] keys[i])@ == key {
                let i = choose|i: int| 0 <= i < keys.len() && (#[trigger] keys[i])@ == key;
                assert(self.entries[i].key@ == key);
            }
        }
        keys
    }
}

} // verus!
