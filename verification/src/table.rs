//! A table from strings to values that remembers the order in which its keys
//! came.

use crate::text::same_text;
use vstd::prelude::*;

verus! {

/// A table keyed by strings. No key occurs twice (`wf`).
#[derive(Debug)]
pub struct StringTable<V> {
    pub entries: Vec<(String, V)>,
}

/// The keys of a list of entries, in the order in which they came.
pub open spec fn keys_of<V>(entries: Seq<(String, V)>) -> Seq<Seq<char>> {
    entries.map_values(|e: (String, V)| e.0@)
}

/// Where `key` stands among `entries`.
pub fn position_of<V>(entries: &Vec<(String, V)>, key: &str) -> (r: Option<usize>)
    requires
        keys_of(entries@).no_duplicates(),
    ensures
        r is Some <==> keys_of(entries@).contains(key@),
        r matches Some(i) ==> {
            &&& i < entries@.len()
            &&& entries@[i as int].0@ == key@
            &&& keys_of(entries@).index_of(key@) == i
        },
{
    let mut i: usize = 0;
    while i < entries.len()
        invariant
            keys_of(entries@).no_duplicates(),
            i <= entries@.len(),
            forall|j: int| 0 <= j < i ==> (#[trigger] entries@[j]).0@ != key@,
        decreases entries@.len() - i,
    {
        if same_text(entries[i].0.as_str(), key) {
            proof {
                assert(keys_of(entries@)[i as int] == key@);
                let j = keys_of(entries@).index_of(key@);
                assert(keys_of(entries@)[j] == key@);
            }
            return Some(i);
        }
        i += 1;
    }
    proof {
        if keys_of(entries@).contains(key@) {
            let j = keys_of(entries@).index_of(key@);
            assert(keys_of(entries@)[j] == entries@[j].0@);
        }
    }
    None
}

impl<V> View for StringTable<V> {
    type V = Map<Seq<char>, V>;

    open spec fn view(&self) -> Map<Seq<char>, V> {
        Map::new(
            |k: Seq<char>| self.keys().contains(k),
            |k: Seq<char>| self.entries@[self.keys().index_of(k)].1,
        )
    }
}

impl<V> StringTable<V> {
    /// The keys, in the order in which they came.
    pub open spec fn keys(&self) -> Seq<Seq<char>> {
        keys_of(self.entries@)
    }

    /// No key occurs twice.
    pub open spec fn wf(&self) -> bool {
        self.keys().no_duplicates()
    }

    /// The value of the `i`-th key is the `i`-th value.
    pub proof fn lemma_value_at(&self, i: int)
        requires
            self.wf(),
            0 <= i < self.entries@.len(),
        ensures
            self@.contains_key(self.entries@[i].0@),
            self@[self.entries@[i].0@] == self.entries@[i].1,
    {
        let k = self.entries@[i].0@;
        assert(self.keys()[i] == k);
        let j = self.keys().index_of(k);
        assert(self.keys()[j] == k);
    }

    /// A table without entries.
    pub fn new() -> (r: Self)
        ensures
            r.wf(),
            r@ == Map::<Seq<char>, V>::empty(),
            r.keys() == Seq::<Seq<char>>::empty(),
    {
        let r: Self = StringTable { entries: Vec::new() };
        assert(r.keys() =~= Seq::<Seq<char>>::empty());
        assert(r@ =~= Map::<Seq<char>, V>::empty());
        r
    }

    /// Where `key` stands among the entries.
    pub fn position(&self, key: &str) -> (r: Option<usize>)
        requires
            self.wf(),
        ensures
            r is Some <==> self@.contains_key(key@),
            r matches Some(i) ==> {
                &&& i < self.entries@.len()
                &&& self.entries@[i as int].0@ == key@
                &&& self@[key@] == self.entries@[i as int].1
            },
    {
        position_of(&self.entries, key)
    }

    /// The value of `key`.
    pub fn get(&self, key: &str) -> (r: Option<&V>)
        requires
            self.wf(),
        ensures
            r is Some <==> self@.contains_key(key@),
            r matches Some(v) ==> *v == self@[key@],
    {
        match self.position(key) {
            Some(i) => Some(&self.entries[i].1),
            None => None,
        }
    }

    /// Gives `key` the value `value`, in place of the one it had.
    pub fn insert(&mut self, key: String, value: V)
        requires
            old(self).wf(),
        ensures
            final(self).wf(),
            final(self)@ == old(self)@.insert(key@, value),
            final(self).keys() == if old(self)@.contains_key(key@) {
                old(self).keys()
            } else {
                old(self).keys().push(key@)
            },
    {
        let ghost before = *self;
        match self.position(key.as_str()) {
            Some(i) => {
                let entry: &mut (String, V) = &mut self.entries[i];
                entry.1 = value;
                proof {
                    assert(self.entries@ == before.entries@.update(
                        i as int,
                        (before.entries@[i as int].0, value),
                    ));
                    assert(self.keys() =~= before.keys());
                    assert forall|k: Seq<char>| #[trigger] self@.contains_key(k) implies self@[k]
                        == before@.insert(key@, value)[k] by {
                        let j = self.keys().index_of(k);
                        assert(self.keys()[j] == k);
                        assert(self.keys()[i as int] == key@);
                        self.lemma_value_at(j);
                        before.lemma_value_at(j);
                    }
                    assert(self@ =~= before@.insert(key@, value));
                }
            },
            None => {
                let ghost k0 = key@;
                self.entries.push((key, value));
                proof {
                    assert(self.keys() =~= before.keys().push(k0));
                    assert forall|k: Seq<char>| #[trigger]
                        self@.contains_key(k) <==> before@.insert(k0, value).contains_key(k) by {
                        if before.keys().contains(k) {
                            let j = before.keys().index_of(k);
                            assert(self.keys()[j] == k);
                        }
                        if k == k0 {
                            assert(self.keys()[before.keys().len() as int] == k);
                        }
                        if self.keys().contains(k) {
                            let j = self.keys().index_of(k);
                            if j < before.keys().len() {
                                assert(before.keys()[j] == k);
                            }
                        }
                    }
                    assert forall|k: Seq<char>| #[trigger] self@.contains_key(k) implies self@[k]
                        == before@.insert(k0, value)[k] by {
                        let j = self.keys().index_of(k);
                        assert(self.keys()[j] == k);
                        self.lemma_value_at(j);
                        if j < before.keys().len() {
                            assert(before.keys()[j] == k);
                            before.lemma_value_at(j);
                        }
                    }
                    assert(self@ =~= before@.insert(k0, value));
                }
            },
        }
    }
}

} // verus!
