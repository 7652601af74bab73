//! Values kept by name, such as per-type counters.

use vstd::prelude::*;

use crate::assoc::{assoc_map, keys_distinct, lemma_assoc_at, lemma_assoc_contains, lemma_assoc_update};

verus! {

/// A map from names to values, each name held once.
#[derive(Debug)]
pub struct NamedValues<V> {
    entries: Vec<(String, V)>,
}

/// The value of `name` in `m`, or zero when it has none.
pub open spec fn count_of(m: Map<Seq<char>, u64>, name: Seq<char>) -> u64 {
    if m.contains_key(name) {
        m[name]
    } else {
        0
    }
}

impl<V> NamedValues<V> {
    /// The names and values, in the order the names were first stored.
    pub closed spec fn spec_pairs(&self) -> Seq<(Seq<char>, V)> {
        self.entries@.map_values(|e: (String, V)| (e.0@, e.1))
    }

    /// The values by name.
    pub open spec fn spec_map(&self) -> Map<Seq<char>, V> {
        assoc_map(self.spec_pairs())
    }

    #[verifier::type_invariant]
    spec fn names_distinct(&self) -> bool {
        keys_distinct(self.spec_pairs())
    }

    /// An empty map.
    pub fn new() -> (r: Self)
        ensures
            r.spec_map() == Map::<Seq<char>, V>::empty(),
    {
        let r = NamedValues { entries: Vec::new() };
        proof {
            assert(r.spec_pairs().len() == 0);
        }
        r
    }

    fn position(&self, name: &str) -> (r: Option<usize>)
        ensures
            match r {
                Some(i) => i < self.spec_pairs().len() && self.spec_pairs()[i as int].0 == name@,
                None => forall|i: int| 0 <= i < self.spec_pairs().len() ==> (#[trigger] self.spec_pairs()[i]).0
                    != name@,
            },
    {
        let k = name.to_owned();
        let mut i: usize = 0;
        while i < self.entries.len()
            invariant
                i <= self.entries@.len(),
                k@ == name@,
                forall|j: int| 0 <= j < i ==> (#[trigger] self.spec_pairs()[j]).0 != name@,
            decreases self.entries@.len() - i,
        {
            if self.entries[i].0 == k {
                return Some(i);
            }
            i = i + 1;
        }
        None
    }

    /// The names and values, in the order the names were first stored; no
    /// name occurs twice.
    pub fn pairs(&self) -> (r: &Vec<(String, V)>)
        ensures
            r@.map_values(|e: (String, V)| (e.0@, e.1)) == self.spec_pairs(),
            keys_distinct(self.spec_pairs()),
    {
        proof {
            use_type_invariant(self);
        }
        &self.entries
    }

    /// The value stored under `name`, if any.
    pub fn get(&self, name: &str) -> (r: Option<&V>)
        ensures
            match r {
                Some(v) => self.spec_map().contains_key(name@) && *v == self.spec_map()[name@],
                None => !self.spec_map().contains_key(name@),
            },
    {
        proof {
            use_type_invariant(self);
        }
        match self.position(name) {
            Some(i) => {
                proof {
                    lemma_assoc_at(self.spec_pairs(), i as int);
                }
                Some(&self.entries[i].1)
            },
            None => {
                proof {
                    lemma_assoc_contains(self.spec_pairs(), name@);
                }
                None
            },
        }
    }

    /// Stores `value` under `name`, replacing the value it had.
    pub fn put(&mut self, name: &str, value: V)
        ensures
            final(self).spec_map() == old(self).spec_map().insert(name@, value),
    {
        proof {
            use_type_invariant(&*self);
        }
        let ghost pairs = self.spec_pairs();
        let found = self.position(name);
        let mut entries: Vec<(String, V)> = Vec::new();
        std::mem::swap(&mut entries, &mut self.entries);
        match found {
            Some(i) => {
                let (key, _) = entries.remove(i);
                entries.insert(i, (key, value));
                proof {
                    let np = entries@.map_values(|e: (String, V)| (e.0@, e.1));
                    assert(np =~= pairs.update(i as int, (pairs[i as int].0, value)));
                    lemma_assoc_update(pairs, i as int, value);
                    assert forall|a: int, b: int| 0 <= a < b < np.len() implies (#[trigger] np[a]).0 != (
                    #[trigger] np[b]).0 by {
                        assert(np[a].0 == pairs[a].0 && np[b].0 == pairs[b].0);
                    }
                }
            },
            None => {
                entries.push((name.to_owned(), value));
                proof {
                    let np = entries@.map_values(|e: (String, V)| (e.0@, e.1));
                    assert(np =~= pairs.push((name@, value)));
                    assert(np.drop_last() =~= pairs);
                    assert forall|a: int, b: int| 0 <= a < b < np.len() implies (#[trigger] np[a]).0 != (
                    #[trigger] np[b]).0 by {
                        if b < pairs.len() {
                            assert(np[a] == pairs[a] && np[b] == pairs[b]);
                        } else {
                            assert(np[a] == pairs[a]);
                        }
                    }
                }
            },
        }
        self.entries = entries;
    }
}

} // verus!
