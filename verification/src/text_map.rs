//! A map with texts as keys, in the order in which the keys came.

use vstd::prelude::*;

verus! {

/// A map from texts to values. A key that comes again keeps its place and gets the new value.
#[derive(Debug)]
pub struct TextMap<V> {
    entries: Vec<(String, V)>,
}

pub open spec fn has_key_at<V>(v: Seq<(String, V)>, key: Seq<char>, i: int) -> bool {
    0 <= i < v.len() && v[i].0@ == key
}

/// Whether no key occurs twice.
pub open spec fn keys_distinct<V>(v: Seq<(String, V)>) -> bool {
    forall|i: int, j: int|
        0 <= i < j < v.len() ==> (#[trigger] v[i]).0@ != (#[trigger] v[j]).0@
}

pub open spec fn entries_map<V>(v: Seq<(String, V)>) -> Map<Seq<char>, V> {
    Map::new(
        |k: Seq<char>| exists|i: int| has_key_at(v, k, i),
        |k: Seq<char>| v[choose|i: int| has_key_at(v, k, i)].1,
    )
}

proof fn lemma_entry<V>(v: Seq<(String, V)>, i: int)
    requires
        keys_distinct(v),
        0 <= i < v.len(),
    ensures
        entries_map(v).dom().contains(v[i].0@),
        entries_map(v)[v[i].0@] == v[i].1,
{
    let k = v[i].0@;
    assert(has_key_at(v, k, i));
    let j = choose|j: int| has_key_at(v, k, j);
    assert(has_key_at(v, k, j));
    if i < j {
        assert(v[i].0@ != v[j].0@);
    } else if j < i {
        assert(v[j].0@ != v[i].0@);
    }
}

impl<V> View for TextMap<V> {
    type V = Map<Seq<char>, V>;

    closed spec fn view(&self) -> Map<Seq<char>, V> {
        entries_map(self.entries@)
    }
}

impl<V> TextMap<V> {
    #[verifier::type_invariant]
    spec fn wf(self) -> bool {
        keys_distinct(self.entries@)
    }

    /// The keys, in the order in which they came.
    pub closed spec fn key_order(self) -> Seq<Seq<char>> {
        Seq::new(self.entries@.len(), |i: int| self.entries@[i].0@)
    }

    pub fn new() -> (r: TextMap<V>)
        ensures
            r@ == Map::<Seq<char>, V>::empty(),
            r.key_order() == Seq::<Seq<char>>::empty(),
    {
        let r: TextMap<V> = TextMap { entries: Vec::new() };
        assert forall|k: Seq<char>| !r@.dom().contains(k) by {
            assert(forall|i: int| !has_key_at(r.entries@, k, i));
        }
        assert(r@ =~= Map::empty());
        r
    }

    fn find(&self, key: &str) -> (r: Option<usize>)
        ensures
            match r {
                Some(i) => has_key_at(self.entries@, key@, i as int),
                None => forall|i: int| !has_key_at(self.entries@, key@, i),
            },
    {
        let mut i: usize = 0;
        while i < self.entries.len()
            invariant
                i <= self.entries@.len(),
                forall|j: int| 0 <= j < i ==> !has_key_at(self.entries@, key@, j),
            decreases self.entries@.len() - i,
        {
            if self.entries[i].0.as_str().eq(key) {
                return Some(i);
            }
            i += 1;
        }
        None
    }

    /// The value of a key.
    pub fn get(&self, key: &str) -> (r: Option<&V>)
        ensures
            match r {
                Some(v) => self@.dom().contains(key@) && *v == self@[key@],
                None => !self@.dom().contains(key@),
            },
    {
        proof {
            use_type_invariant(self);
        }
        match self.find(key) {
            Some(i) => {
                proof {
                    lemma_entry(self.entries@, i as int);
                }
                Some(&self.entries[i].1)
            },
            None => None,
        }
    }

    pub fn contains_key(&self, key: &str) -> (r: bool)
        ensures
            r == self@.dom().contains(key@),
    {
        self.get(key).is_some()
    }

    /// Sets the value of a key.
    pub fn insert(&mut self, key: String, value: V)
        ensures
            final(self)@ == old(self)@.insert(key@, value),
            final(self).key_order() == (if old(self)@.dom().contains(key@) {
                old(self).key_order()
            } else {
                old(self).key_order().push(key@)
            }),
    {
        proof {
            use_type_invariant(&*self);
        }
        let found = self.find(key.as_str());
        let mut entries: Vec<(String, V)> = Vec::new();
        std::mem::swap(&mut entries, &mut self.entries);
        let ghost before = entries@;
        match found {
            Some(i) => {
                proof {
                    lemma_entry(before, i as int);
                }
                entries.set(i, (key, value));
            },
            None => {
                entries.push((key, value));
            },
        }
        proof {
            let after = entries@;
            assert(keys_distinct(after)) by {
                assert forall|i: int, j: int| 0 <= i < j < after.len() implies (
                #[trigger] after[i]).0@ != (#[trigger] after[j]).0@ by {
                    assert(!(found is None) || (i < before.len() && !has_key_at(before, key@, i)));
                    if found is Some {
                        assert(before[i].0@ != before[j].0@);
                    }
                }
            }
            let expected = entries_map(before).insert(key@, value);
            assert forall|k: Seq<char>|
                #![trigger entries_map(after).dom().contains(k)]
                #![trigger entries_map(after)[k]]
                entries_map(after).dom().contains(k) == expected.dom().contains(k) && (
                expected.dom().contains(k) ==> entries_map(after)[k] == expected[k]) by {
                if k == key@ {
                    let at: int = match found {
                        Some(i) => i as int,
                        None => before.len() as int,
                    };
                    assert(after[at].0@ == key@);
                    lemma_entry(after, at);
                } else {
                    if exists|i: int| has_key_at(before, k, i) {
                        let i = choose|i: int| has_key_at(before, k, i);
                        lemma_entry(before, i);
                        assert(after[i] == before[i]);
                        lemma_entry(after, i);
                    } else {
                        assert forall|i: int| !has_key_at(after, k, i) by {
                            assert(!has_key_at(before, k, i));
                        }
                    }
                }
            }
            assert(entries_map(after) =~= expected);
        }
        self.entries = entries;
        assert(self.key_order() =~= if entries_map(before).dom().contains(key@) {
            old(self).key_order()
        } else {
            old(self).key_order().push(key@)
        });
    }

    /// Takes a key and its value out.
    pub fn remove(&mut self, key: &str) -> (r: Option<V>)
        ensures
            match r {
                Some(v) => old(self)@.dom().contains(key@) && v == old(self)@[key@],
                None => !old(self)@.dom().contains(key@),
            },
            final(self)@ == old(self)@.remove(key@),
    {
        proof {
            use_type_invariant(&*self);
        }
        let found = self.find(key);
        let mut entries: Vec<(String, V)> = Vec::new();
        std::mem::swap(&mut entries, &mut self.entries);
        let ghost before = entries@;
        match found {
            Some(at) => {
                proof {
                    lemma_entry(before, at as int);
                }
                let (_, value) = entries.remove(at);
                proof {
                    let after = entries@;
                    assert(forall|i: int|
                        0 <= i < after.len() ==> (#[trigger] after[i]) == (if i < at {
                            before[i]
                        } else {
                            before[i + 1]
                        }));
                    let expected = entries_map(before).remove(key@);
                    assert forall|k: Seq<char>|
                        #![trigger entries_map(after).dom().contains(k)]
                        #![trigger entries_map(after)[k]]
                        entries_map(after).dom().contains(k) == expected.dom().contains(k) && (
                        expected.dom().contains(k) ==> entries_map(after)[k] == expected[k]) by {
                        if k == key@ {
                            assert forall|i: int| !has_key_at(after, k, i) by {
                                if 0 <= i < after.len() {
                                    if i < at {
                                        assert(before[i].0@ != before[at as int].0@);
                                    } else {
                                        assert(before[at as int].0@ != before[i + 1].0@);
                                    }
                                }
                            }
                        } else if exists|i: int| has_key_at(before, k, i) {
                            let i = choose|i: int| has_key_at(before, k, i);
                            lemma_entry(before, i);
                            let j = if i < at {
                                i
                            } else {
                                i - 1
                            };
                            assert(after[j] == before[i]);
                            lemma_entry(after, j);
                        } else {
                            assert forall|i: int| !has_key_at(after, k, i) by {
                                if 0 <= i < after.len() {
                                    assert(!has_key_at(
                                        before,
                                        k,
                                        if i < at {
                                            i
                                        } else {
                                            i + 1
                                        },
                                    ));
                                }
                            }
                        }
                    }
                    assert(entries_map(after) =~= expected);
                }
                self.entries = entries;
                Some(value)
            },
            None => {
                self.entries = entries;
                assert(entries_map(before).remove(key@) =~= entries_map(before));
                None
            },
        }
    }

    /// How many keys there are. The keys are those that the map holds, each once.
    pub fn len(&self) -> (r: usize)
        ensures
            r == self.key_order().len(),
            self.key_order().no_duplicates(),
            forall|k: Seq<char>| self@.dom().contains(k) <==> self.key_order().contains(k),
    {
        proof {
            use_type_invariant(self);
            assert forall|k: Seq<char>| self@.dom().contains(k) implies self.key_order().contains(
                k,
            ) by {
                let i = choose|i: int| has_key_at(self.entries@, k, i);
                assert(self.key_order()[i] == k);
            }
            assert forall|k: Seq<char>| self.key_order().contains(k) implies self@.dom().contains(
                k,
            ) by {
                let i = choose|i: int| 0 <= i < self.key_order().len() && self.key_order()[i] == k;
                lemma_entry(self.entries@, i);
            }
        }
        self.entries.len()
    }

    /// The key that came at a place, and its value.
    pub fn entry(&self, i: usize) -> (r: (&String, &V))
        requires
            i < self.key_order().len(),
        ensures
            r.0@ == self.key_order()[i as int],
            self@.dom().contains(r.0@),
            *r.1 == self@[r.0@],
    {
        proof {
            use_type_invariant(self);
            lemma_entry(self.entries@, i as int);
        }
        (&self.entries[i].0, &self.entries[i].1)
    }
}

} // verus!
