//! String-keyed metadata attached to health results and trace contexts.

use vstd::prelude::*;

use crate::assoc::{assoc_map, lemma_assoc_at, lemma_assoc_contains, lemma_assoc_len, lemma_assoc_update};

verus! {

/// A map from string keys to string values. Setting a key that is present
/// replaces its value.
#[derive(Debug)]
pub struct Metadata {
    entries: Vec<(String, String)>,
}

impl View for Metadata {
    type V = Map<Seq<char>, Seq<char>>;

    open spec fn view(&self) -> Map<Seq<char>, Seq<char>> {
        self.spec_map()
    }
}

impl Metadata {
    /// The entries as a map.
    pub closed spec fn spec_map(&self) -> Map<Seq<char>, Seq<char>> {
        assoc_map(self.spec_pairs())
    }

    /// The entries in the order their keys were first set.
    pub closed spec fn spec_pairs(&self) -> Seq<(Seq<char>, Seq<char>)> {
        self.entries@.map_values(|p: (String, String)| (p.0@, p.1@))
    }

    #[verifier::type_invariant]
    spec fn keys_distinct(&self) -> bool {
        forall|a: int, b: int|
            0 <= a < b < self.entries@.len() ==> (#[trigger] self.entries@[a]).0@
                != (#[trigger] self.entries@[b]).0@
    }

    /// An empty map.
    pub fn new() -> (m: Self)
        ensures
            m@ == Map::<Seq<char>, Seq<char>>::empty(),
    {
        let m = Metadata { entries: Vec::new() };
        proof {
            assert(m.spec_pairs().len() == 0);
        }
        m
    }

    fn position(&self, key: &str) -> (r: Option<usize>)
        ensures
            match r {
                Some(i) => i < self.entries@.len() && self.entries@[i as int].0@ == key@,
                None => forall|i: int| 0 <= i < self.entries@.len() ==> (#[trigger] self.entries@[i]).0@ != key@,
            },
    {
        let k = key.to_owned();
        let mut i: usize = 0;
        while i < self.entries.len()
            invariant
                i <= self.entries@.len(),
                k@ == key@,
                forall|j: int| 0 <= j < i ==> (#[trigger] self.entries@[j]).0@ != key@,
            decreases self.entries@.len() - i,
        {
            if self.entries[i].0 == k {
                return Some(i);
            }
            i = i + 1;
        }
        None
    }

    /// Sets `key` to `value`, replacing the value it had.
    pub fn insert(&mut self, key: String, value: String)
        ensures
            final(self)@ == old(self)@.insert(key@, value@),
    {
        proof {
            use_type_invariant(&*self);
        }
        let ghost pairs = self.spec_pairs();
        let found = self.position(key.as_str());
        let mut entries: Vec<(String, String)> = Vec::new();
        std::mem::swap(&mut entries, &mut self.entries);
        match found {
            Some(i) => {
                proof {
                    lemma_assoc_update(pairs, i as int, value@);
                }
                entries.set(i, (key, value));
                proof {
                    assert(entries@.map_values(|p: (String, String)| (p.0@, p.1@)) =~= pairs.update(
                        i as int,
                        (pairs[i as int].0, value@),
                    ));
                }
            },
            None => {
                proof {
                    lemma_assoc_contains(pairs, key@);
                }
                entries.push((key, value));
                proof {
                    assert(entries@.map_values(|p: (String, String)| (p.0@, p.1@)) =~= pairs.push(
                        (key@, value@),
                    ));
                    assert(pairs.push((key@, value@)).drop_last() =~= pairs);
                }
            },
        }
        self.entries = entries;
    }

    /// The value of `key`, if it is set.
    pub fn get(&self, key: &str) -> (v: Option<&String>)
        ensures
            match v {
                Some(s) => self@.contains_key(key@) && self@[key@] == s@,
                None => !self@.contains_key(key@),
            },
    {
        proof {
            use_type_invariant(self);
        }
        match self.position(key) {
            Some(i) => {
                proof {
                    lemma_assoc_at(self.spec_pairs(), i as int);
                }
                Some(&self.entries[i].1)
            },
            None => {
                proof {
                    lemma_assoc_contains(self.spec_pairs(), key@);
                }
                None
            },
        }
    }

    /// Whether `key` is set.
    pub fn contains_key(&self, key: &str) -> (b: bool)
        ensures
            b == self@.contains_key(key@),
    {
        self.get(key).is_some()
    }

    /// The number of keys set.
    pub fn len(&self) -> (n: usize)
        ensures
            n == self@.dom().len(),
    {
        proof {
            use_type_invariant(self);
            lemma_assoc_len(self.spec_pairs());
        }
        self.entries.len()
    }

    /// The entries, in the order their keys were first set.
    pub fn entries(&self) -> (v: &Vec<(String, String)>)
        ensures
            v@.map_values(|p: (String, String)| (p.0@, p.1@)) == self.spec_pairs(),
            assoc_map(self.spec_pairs()) == self@,
    {
        &self.entries
    }
}

impl Clone for Metadata {
    fn clone(&self) -> (m: Self)
        ensures
            m@ == self@,
            m.spec_pairs() == self.spec_pairs(),
    {
        proof {
            use_type_invariant(self);
        }
        let mut entries: Vec<(String, String)> = Vec::new();
        let mut i: usize = 0;
        while i < self.entries.len()
            invariant
                i <= self.entries@.len(),
                entries@.len() == i,
                forall|j: int| 0 <= j < i ==> (#[trigger] entries@[j]).0@ == self.entries@[j].0@
                    && entries@[j].1@ == self.entries@[j].1@,
            decreases self.entries@.len() - i,
        {
            let k = self.entries[i].0.clone();
            let v = self.entries[i].1.clone();
            entries.push((k, v));
            i = i + 1;
        }
        proof {
            assert forall|a: int, b: int|
                0 <= a < b < entries@.len() implies (#[trigger] entries@[a]).0@
                != (#[trigger] entries@[b]).0@ by {
                assert(self.entries@[a].0@ != self.entries@[b].0@);
            }
        }
        let m = Metadata { entries };
        proof {
            assert(m.spec_pairs() =~= self.spec_pairs());
        }
        m
    }
}

} // verus!
