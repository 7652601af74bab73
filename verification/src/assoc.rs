//! Association lists: sequences of key-value pairs read as maps, where a
//! later pair for a key overrides an earlier one.

use vstd::prelude::*;

verus! {

/// The map that a list of pairs holds.
pub open spec fn assoc_map<K, V>(pairs: Seq<(K, V)>) -> Map<K, V>
    decreases pairs.len(),
{
    if pairs.len() == 0 {
        Map::empty()
    } else {
        assoc_map(pairs.drop_last()).insert(pairs.last().0, pairs.last().1)
    }
}

/// No key occurs twice.
pub open spec fn keys_distinct<K, V>(pairs: Seq<(K, V)>) -> bool {
    forall|a: int, b: int| 0 <= a < b < pairs.len() ==> (#[trigger] pairs[a]).0 != (#[trigger] pairs[b]).0
}

/// A key is in the map exactly when some pair has it.
pub proof fn lemma_assoc_contains<K, V>(pairs: Seq<(K, V)>, k: K)
    ensures
        assoc_map(pairs).contains_key(k) <==> exists|i: int| 0 <= i < pairs.len() && (#[trigger] pairs[i]).0 == k,
    decreases pairs.len(),
{
    if pairs.len() > 0 {
        lemma_assoc_contains(pairs.drop_last(), k);
        if exists|i: int| 0 <= i < pairs.len() && (#[trigger] pairs[i]).0 == k {
            let i = choose|i: int| 0 <= i < pairs.len() && (#[trigger] pairs[i]).0 == k;
            if i < pairs.len() - 1 {
                assert(pairs.drop_last()[i] == pairs[i]);
            }
        }
        if assoc_map(pairs.drop_last()).contains_key(k) {
            let i = choose|i: int| 0 <= i < pairs.drop_last().len() && (#[trigger] pairs.drop_last()[i]).0 == k;
            assert(pairs[i] == pairs.drop_last()[i]);
        }
    }
}

/// With distinct keys, each pair's value is its key's value in the map.
pub proof fn lemma_assoc_at<K, V>(pairs: Seq<(K, V)>, i: int)
    requires
        0 <= i < pairs.len(),
        keys_distinct(pairs),
    ensures
        assoc_map(pairs).contains_key(pairs[i].0),
        assoc_map(pairs)[pairs[i].0] == pairs[i].1,
    decreases pairs.len(),
{
    if i < pairs.len() - 1 {
        lemma_assoc_at(pairs.drop_last(), i);
        assert(pairs.drop_last()[i] == pairs[i]);
    }
}

/// With distinct keys, replacing the value of one pair sets its key.
pub proof fn lemma_assoc_update<K, V>(pairs: Seq<(K, V)>, i: int, v: V)
    requires
        0 <= i < pairs.len(),
        keys_distinct(pairs),
    ensures
        assoc_map(pairs.update(i, (pairs[i].0, v))) == assoc_map(pairs).insert(pairs[i].0, v),
    decreases pairs.len(),
{
    let u = pairs.update(i, (pairs[i].0, v));
    if i == pairs.len() - 1 {
        assert(u.drop_last() =~= pairs.drop_last());
        lemma_assoc_contains(pairs.drop_last(), pairs[i].0);
        assert(assoc_map(u) =~= assoc_map(pairs).insert(pairs[i].0, v));
    } else {
        lemma_assoc_update(pairs.drop_last(), i, v);
        assert(u.drop_last() =~= pairs.drop_last().update(i, (pairs[i].0, v)));
        assert(pairs.drop_last()[i] == pairs[i]);
        assert(pairs.last().0 != pairs[i].0);
        assert(assoc_map(u) =~= assoc_map(pairs).insert(pairs[i].0, v));
    }
}

/// With distinct keys, dropping one pair removes its key.
pub proof fn lemma_assoc_remove<K, V>(pairs: Seq<(K, V)>, i: int)
    requires
        0 <= i < pairs.len(),
        keys_distinct(pairs),
    ensures
        assoc_map(pairs.remove(i)) == assoc_map(pairs).remove(pairs[i].0),
        keys_distinct(pairs.remove(i)),
    decreases pairs.len(),
{
    let r = pairs.remove(i);
    assert forall|a: int, b: int| 0 <= a < b < r.len() implies (#[trigger] r[a]).0 != (#[trigger] r[b]).0 by {
        let a2 = if a < i { a } else { a + 1 };
        let b2 = if b < i { b } else { b + 1 };
        assert(r[a] == pairs[a2] && r[b] == pairs[b2]);
    }
    if i == pairs.len() - 1 {
        assert(r =~= pairs.drop_last());
        lemma_assoc_contains(pairs.drop_last(), pairs[i].0);
        assert(assoc_map(r) =~= assoc_map(pairs).remove(pairs[i].0));
    } else {
        let p = pairs.drop_last();
        assert forall|a: int, b: int| 0 <= a < b < p.len() implies (#[trigger] p[a]).0 != (#[trigger] p[b]).0 by {
            assert(p[a] == pairs[a] && p[b] == pairs[b]);
        }
        lemma_assoc_remove(p, i);
        assert(r.drop_last() =~= p.remove(i));
        assert(r.last() == pairs.last());
        assert(p[i] == pairs[i]);
        assert(pairs.last().0 != pairs[i].0);
        assert(assoc_map(r) =~= assoc_map(pairs).remove(pairs[i].0));
    }
}

/// With distinct keys, the map has one key per pair.
pub proof fn lemma_assoc_len<K, V>(pairs: Seq<(K, V)>)
    requires
        keys_distinct(pairs),
    ensures
        assoc_map(pairs).dom().finite(),
        assoc_map(pairs).dom().len() == pairs.len(),
    decreases pairs.len(),
{
    if pairs.len() > 0 {
        let p = pairs.drop_last();
        assert forall|a: int, b: int| 0 <= a < b < p.len() implies (#[trigger] p[a]).0 != (#[trigger] p[b]).0 by {
            assert(p[a] == pairs[a]);
            assert(p[b] == pairs[b]);
        }
        lemma_assoc_len(p);
        lemma_assoc_contains(p, pairs.last().0);
        if assoc_map(p).contains_key(pairs.last().0) {
            let i = choose|i: int| 0 <= i < p.len() && (#[trigger] p[i]).0 == pairs.last().0;
            assert(p[i] == pairs[i]);
        }
    }
}

} // verus!
