//! A small map from names to values that remembers the order in which the
//! names came in.

use vstd::prelude::*;

verus! {

/// A map keyed by text. Its entries stay in the order in which their keys
/// were first added.
pub struct Table<V> {
    entries: Vec<(String, V)>,
}

impl<V> Table<V> {
    /// The keys, oldest first.
    pub closed spec fn keys(&self) -> Seq<Seq<char>> {
        Seq::new(self.entries@.len(), |i: int| self.entries@[i].0@)
    }

    /// The value of the entry at position `i`.
    pub closed spec fn value_at(&self, i: int) -> V {
        self.entries@[i].1
    }

    /// No key occurs twice.
    pub open spec fn wf(&self) -> bool {
        self.keys().no_duplicates()
    }

    /// There is an entry under `key`.
    pub open spec fn contains(&self, key: Seq<char>) -> bool {
        self.keys().contains(key)
    }

    /// The value under `key`; meaningful only if there is one.
    pub open spec fn value_of(&self, key: Seq<char>) -> V {
        self.value_at(self.keys().index_of(key))
    }

    /// The table as a map.
    pub open spec fn view(&self) -> Map<Seq<char>, V> {
        Map::new(|key: Seq<char>| self.contains(key), |key: Seq<char>| self.value_of(key))
    }

    /// In a well-formed table the value under the key at a position is the
    /// value at that position.
    pub proof fn lemma_value_of(&self, i: int)
        requires
            self.wf(),
            0 <= i < self.keys().len(),
        ensures
            self.contains(self.keys()[i]),
            self.keys().index_of(self.keys()[i]) == i,
            self.value_of(self.keys()[i]) == self.value_at(i),
    {
        let keys = self.keys();
        assert(keys.contains(keys[i]));
        let j = keys.index_of(keys[i]);
        assert(0 <= j < keys.len() && keys[j] == keys[i]);
    }

    /// A table without entries.
    pub fn new() -> (table: Table<V>)
        ensures
            table.wf(),
            table.keys() == Seq::<Seq<char>>::empty(),
            table@ == Map::<Seq<char>, V>::empty(),
    {
        let table = Table { entries: Vec::new() };
        assert(table.keys() =~= Seq::<Seq<char>>::empty());
        assert(table@ =~= Map::<Seq<char>, V>::empty());
        table
    }

    /// The number of entries.
    pub fn len(&self) -> (len: usize)
        ensures
            len == self.keys().len(),
    {
        self.entries.len()
    }

    /// The key at position `i`.
    pub fn key_at(&self, i: usize) -> (key: &String)
        requires
            i < self.keys().len(),
        ensures
            key@ == self.keys()[i as int],
    {
        &self.entries[i].0
    }

    /// Where the entry under `key` stands, if there is one.
    pub fn position(&self, key: &String) -> (found: Option<usize>)
        ensures
            match found {
                Some(i) => i < self.keys().len() && self.keys()[i as int] == key@,
                None => !self.contains(key@),
            },
    {
        let mut index: usize = 0;
        while index < self.entries.len()
            invariant
                index <= self.entries@.len(),
                forall|i: int| 0 <= i < index ==> self.keys()[i] != key@,
            decreases self.entries@.len() - index,
        {
            if self.entries[index].0 == *key {
                return Some(index);
            }
            index = index + 1;
        }
        None
    }

    /// Whether there is an entry under `key`.
    pub fn contains_key(&self, key: &String) -> (found: bool)
        ensures
            found == self.contains(key@),
    {
        self.position(key).is_some()
    }

    /// The value under `key`, if there is one.
    pub fn get(&self, key: &String) -> (found: Option<&V>)
        requires
            self.wf(),
        ensures
            match found {
                Some(value) => self.contains(key@) && *value == self.value_of(key@),
                None => !self.contains(key@),
            },
    {
        match self.position(key) {
            Some(i) => {
                proof {
                    self.lemma_value_of(i as int);
                }
                Some(&self.entries[i].1)
            },
            None => None,
        }
    }

    /// Puts `value` under `key`. A key that is new goes to the end; a key
    /// that is there already keeps its place, and its old value is handed
    /// back.
    pub fn insert(&mut self, key: String, value: V) -> (replaced: Option<V>)
        requires
            old(self).wf(),
        ensures
            final(self).wf(),
            final(self)@ == old(self)@.insert(key@, value),
            final(self).keys() == (if old(self).contains(key@) {
                old(self).keys()
            } else {
                old(self).keys().push(key@)
            }),
            replaced == (if old(self).contains(key@) {
                Some(old(self).value_of(key@))
            } else {
                None
            }),
    {
        let ghost before = *self;
        let ghost name = key@;
        let replaced = match self.position(&key) {
            Some(i) => {
                let (_, old_value) = self.entries.remove(i);
                self.entries.insert(i, (key, value));
                proof {
                    before.lemma_value_of(i as int);
                    assert(self.keys() =~= before.keys());
                }
                Some(old_value)
            },
            None => {
                self.entries.push((key, value));
                proof {
                    assert(self.keys() =~= before.keys().push(name));
                }
                None
            },
        };
        proof {
            assert forall|k: Seq<char>| #[trigger] self.contains(k) <==> (before.contains(k) || k
                == name) by {
                if before.contains(k) {
                    let i = before.keys().index_of(k);
                    assert(self.keys()[i] == k);
                }
                if k == name {
                    if before.contains(name) {
                        let i = before.keys().index_of(name);
                        assert(self.keys()[i] == k);
                    } else {
                        assert(self.keys()[before.keys().len() as int] == k);
                    }
                }
            }
            assert forall|k: Seq<char>| self.contains(k) implies #[trigger] self.value_of(k) == (
            if k == name {
                value
            } else {
                before.value_of(k)
            }) by {
                let i = self.keys().index_of(k);
                self.lemma_value_of(i);
                if k != name {
                    before.lemma_value_of(i);
                }
            }
            assert(self@ =~= before@.insert(name, value));
        }
        replaced
    }

    /// Takes out the entry under `key` and hands its value back; the other
    /// entries keep their order.
    pub fn remove(&mut self, key: &String) -> (removed: Option<V>)
        requires
            old(self).wf(),
        ensures
            final(self).wf(),
            final(self)@ == old(self)@.remove(key@),
            final(self).keys() == (if old(self).contains(key@) {
                old(self).keys().remove(old(self).keys().index_of(key@))
            } else {
                old(self).keys()
            }),
            removed == (if old(self).contains(key@) {
                Some(old(self).value_of(key@))
            } else {
                None
            }),
    {
        let ghost before = *self;
        match self.position(key) {
            Some(i) => {
                let (_, value) = self.entries.remove(i);
                proof {
                    before.lemma_value_of(i as int);
                    assert(self.keys() =~= before.keys().remove(i as int));
                    assert forall|k: Seq<char>| #[trigger] self.contains(k) <==> (before.contains(k)
                        && k != key@) by {
                        if self.contains(k) {
                            let j = self.keys().index_of(k);
                            if j < i {
                                assert(before.keys()[j] == k);
                            } else {
                                assert(before.keys()[j + 1] == k);
                            }
                        }
                        if before.contains(k) && k != key@ {
                            let j = before.keys().index_of(k);
                            if j < i {
                                assert(self.keys()[j] == k);
                            } else {
                                assert(self.keys()[j - 1] == k);
                            }
                        }
                    }
                    assert forall|k: Seq<char>| self.contains(k) implies #[trigger] self.value_of(k)
                        == before.value_of(k) by {
                        let j = self.keys().index_of(k);
                        self.lemma_value_of(j);
                        if j < i {
                            before.lemma_value_of(j);
                        } else {
                            before.lemma_value_of(j + 1);
                        }
                    }
                    assert(self@ =~= before@.remove(key@));
                }
                Some(value)
            },
            None => {
                proof {
                    assert(self@ =~= before@.remove(key@));
                }
                None
            },
        }
    }
}

} // verus!
