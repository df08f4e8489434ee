//! A small map keyed by strings, kept as a list of entries with distinct keys.
//!
//! The map is viewed as a `Map` from key text to the view of the value, and it
//! can be walked entry by entry in the order in which the keys first arrived.

use crate::text::same_text;
use vstd::prelude::*;

verus! {

/// A map from strings to values of type `V`.
pub struct StringMap<V> {
    pub(crate) entries: Vec<(String, V)>,
}

impl<V: View> View for StringMap<V> {
    type V = Map<Seq<char>, V::V>;

    closed spec fn view(&self) -> Map<Seq<char>, V::V> {
        Map::new(
            |key: Seq<char>| self.keys().contains(key),
            |key: Seq<char>| self.entries@[self.keys().index_of(key)].1@,
        )
    }
}

impl<V> StringMap<V> {
    /// The keys, in the order in which the entries are walked.
    pub closed spec fn keys(&self) -> Seq<Seq<char>> {
        Seq::new(self.entries@.len(), |i: int| self.entries@[i].0@)
    }

    #[verifier::type_invariant]
    spec fn keys_are_distinct(&self) -> bool {
        self.keys().no_duplicates()
    }
}

impl<V: View> StringMap<V> {
    /// The keys list exactly the domain of the map, each key once.
    pub open spec fn keys_list_domain(&self) -> bool {
        &&& self.keys().no_duplicates()
        &&& self.keys().len() == self@.len()
        &&& self@.dom().finite()
        &&& forall|key: Seq<char>| self.keys().contains(key) <==> self@.contains_key(key)
    }

    proof fn lemma_keys_list_domain(&self)
        requires
            self.keys().no_duplicates(),
        ensures
            self.keys_list_domain(),
    {
        let keys = self.keys();
        vstd::seq_lib::seq_to_set_is_finite(keys);
        keys.unique_seq_to_set();
    }

    proof fn lemma_entry_at(&self, i: int)
        requires
            self.keys().no_duplicates(),
            0 <= i < self.keys().len(),
        ensures
            self@.contains_key(self.keys()[i]),
            self@[self.keys()[i]] == self.entries@[i].1@,
    {
    }

    /// An empty map.
    pub fn new() -> (map: Self)
        ensures
            map@ == Map::<Seq<char>, V::V>::empty(),
            map.keys() == Seq::<Seq<char>>::empty(),
    {
        StringMap { entries: Vec::new() }
    }

    /// The number of entries.
    pub fn len(&self) -> (count: usize)
        ensures
            count == self@.len(),
            self.keys_list_domain(),
    {
        proof {
            use_type_invariant(self);
            self.lemma_keys_list_domain();
        }
        self.entries.len()
    }

    /// Whether the map has no entry.
    pub fn is_empty(&self) -> (empty: bool)
        ensures
            empty == (self@ == Map::<Seq<char>, V::V>::empty()),
    {
        proof {
            use_type_invariant(self);
            self.lemma_keys_list_domain();
            if self.entries@.len() == 0 {
                assert(self@ =~= Map::<Seq<char>, V::V>::empty());
            }
        }
        self.entries.len() == 0
    }

    /// The place of `key` among the entries.
    fn position(&self, key: &str) -> (place: Option<usize>)
        ensures
            match place {
                Some(i) => i < self.keys().len() && self.keys()[i as int] == key@,
                None => !self.keys().contains(key@),
            },
    {
        let mut i: usize = 0;
        while i < self.entries.len()
            invariant
                i <= self.entries@.len(),
                forall|j: int| 0 <= j < i ==> self.keys()[j] != key@,
            decreases self.entries@.len() - i,
        {
            if same_text(self.entries[i].0.as_str(), key) {
                return Some(i);
            }
            i += 1;
        }
        None
    }

    /// The value stored under `key`, if there is one.
    pub fn get(&self, key: &str) -> (found: Option<&V>)
        ensures
            match found {
                Some(value) => self@.contains_key(key@) && value@ == self@[key@],
                None => !self@.contains_key(key@),
            },
    {
        proof {
            use_type_invariant(self);
        }
        match self.position(key) {
            Some(i) => {
                proof {
                    self.lemma_entry_at(i as int);
                }
                Some(&self.entries[i].1)
            },
            None => None,
        }
    }

    /// Whether a value is stored under `key`.
    pub fn contains_key(&self, key: &str) -> (present: bool)
        ensures
            present == self@.contains_key(key@),
    {
        self.position(key).is_some()
    }

    /// The entry at place `index` of the walk, if there are that many.
    pub fn entry(&self, index: usize) -> (found: Option<(&str, &V)>)
        ensures
            self.keys_list_domain(),
            match found {
                Some((key, value)) => {
                    &&& index < self.keys().len()
                    &&& key@ == self.keys()[index as int]
                    &&& value@ == self@[key@]
                },
                None => index >= self.keys().len(),
            },
    {
        proof {
            use_type_invariant(self);
            self.lemma_keys_list_domain();
        }
        if index < self.entries.len() {
            proof {
                self.lemma_entry_at(index as int);
            }
            let pair = &self.entries[index];
            Some((pair.0.as_str(), &pair.1))
        } else {
            None
        }
    }

    /// Stores `value` under `key`. A value already stored under that key is
    /// replaced and the key keeps its place in the walk; a new key goes last.
    pub fn insert(&mut self, key: String, value: V)
        ensures
            final(self)@ == old(self)@.insert(key@, value@),
            final(self).keys() == (if old(self)@.contains_key(key@) {
                old(self).keys()
            } else {
                old(self).keys().push(key@)
            }),
    {
        proof {
            use_type_invariant(&*self);
        }
        let place = self.position(key.as_str());
        let ghost before = *self;
        let ghost key_text = key@;
        let ghost value_view = value@;
        // The entries are taken out while they change: what stays behind is
        // an empty map, which is well formed.
        let mut entries = Vec::new();
        std::mem::swap(&mut entries, &mut self.entries);
        match place {
            Some(i) => {
                entries.set(i, (key, value));
            },
            None => {
                entries.push((key, value));
            },
        }
        let ghost after = StringMap { entries };
        proof {
            match place {
                Some(i) => {
                    assert(after.keys() =~= before.keys());
                },
                None => {
                    assert(after.keys() =~= before.keys().push(key_text));
                    assert forall|k: Seq<char>| #[trigger]
                        after.keys().contains(k) <==> (k == key_text || before.keys().contains(k)) by {
                        if before.keys().contains(k) {
                            let j = before.keys().index_of(k);
                            assert(after.keys()[j] == k);
                        }
                        if k == key_text {
                            assert(after.keys()[before.keys().len() as int] == k);
                        }
                    }
                },
            }
        }
        self.entries = entries;
    }
}

} // verus!
