//! A map kept as two parallel sequences, one of keys without repetition
//! and one of values.

use vstd::prelude::*;

verus! {

/// Whether `keys` and `values` pair up: equally long, and no key twice.
pub open spec fn paired<K, V>(keys: Seq<K>, values: Seq<V>) -> bool {
    keys.len() == values.len() && keys.no_duplicates()
}

/// The map that takes each key to the value at the key's index.
pub open spec fn pairs_map<K, V>(keys: Seq<K>, values: Seq<V>) -> Map<K, V> {
    Map::new(|k: K| keys.contains(k), |k: K| values[keys.index_of(k)])
}

/// The key at index `i` is mapped to the value at index `i`.
pub proof fn lemma_pairs_lookup<K, V>(keys: Seq<K>, values: Seq<V>, i: int)
    requires
        paired(keys, values),
        0 <= i < keys.len(),
    ensures
        pairs_map(keys, values).contains_key(keys[i]),
        pairs_map(keys, values)[keys[i]] == values[i],
        keys.index_of(keys[i]) == i,
{
    assert(keys.contains(keys[i]));
}

/// A key that is not among `keys` is not in the map.
pub proof fn lemma_pairs_absent<K, V>(keys: Seq<K>, values: Seq<V>, k: K)
    requires
        !keys.contains(k),
    ensures
        !pairs_map(keys, values).contains_key(k),
{
}

/// Appending a new key with its value inserts it into the map.
pub proof fn lemma_pairs_push<K, V>(keys: Seq<K>, values: Seq<V>, k: K, v: V)
    requires
        paired(keys, values),
        !keys.contains(k),
    ensures
        paired(keys.push(k), values.push(v)),
        pairs_map(keys.push(k), values.push(v)) == pairs_map(keys, values).insert(k, v),
{
    let keys2 = keys.push(k);
    let values2 = values.push(v);
    assert(keys2.no_duplicates()) by {
        assert forall|i: int, j: int| 0 <= i < keys2.len() && 0 <= j < keys2.len() && i != j implies keys2[i]
            != keys2[j] by {
            if i < keys.len() {
                assert(keys.contains(keys[i]));
            }
            if j < keys.len() {
                assert(keys.contains(keys[j]));
            }
        }
    }
    assert forall|x: K| keys2.contains(x) <==> (x == k || keys.contains(x)) by {
        if keys.contains(x) {
            let i = keys.index_of(x);
            assert(keys2[i] == x);
        }
        assert(keys2[keys.len() as int] == k);
    }
    assert forall|x: K| #[trigger] keys2.contains(x) implies values2[keys2.index_of(x)] == (if x == k {
        v
    } else {
        values[keys.index_of(x)]
    }) by {
        let i = keys2.index_of(x);
        lemma_pairs_lookup(keys2, values2, i);
        if x != k {
            lemma_pairs_lookup(keys, values, i);
        } else {
            lemma_pairs_lookup(keys2, values2, keys.len() as int);
        }
    }
    assert(pairs_map(keys2, values2) =~= pairs_map(keys, values).insert(k, v));
}

/// Replacing the value at index `i` replaces what the key at `i` maps to.
pub proof fn lemma_pairs_update<K, V>(keys: Seq<K>, values: Seq<V>, i: int, v: V)
    requires
        paired(keys, values),
        0 <= i < keys.len(),
    ensures
        paired(keys, values.update(i, v)),
        pairs_map(keys, values.update(i, v)) == pairs_map(keys, values).insert(keys[i], v),
{
    lemma_pairs_lookup(keys, values, i);
    assert forall|x: K| #[trigger] keys.contains(x) implies values.update(i, v)[keys.index_of(x)] == (if x
        == keys[i] {
        v
    } else {
        values[keys.index_of(x)]
    }) by {
        let j = keys.index_of(x);
        lemma_pairs_lookup(keys, values, j);
    }
    assert(pairs_map(keys, values.update(i, v)) =~= pairs_map(keys, values).insert(keys[i], v));
}

/// Taking out index `i` of both sequences removes the key at `i`.
pub proof fn lemma_pairs_remove<K, V>(keys: Seq<K>, values: Seq<V>, i: int)
    requires
        paired(keys, values),
        0 <= i < keys.len(),
    ensures
        paired(keys.remove(i), values.remove(i)),
        !keys.remove(i).contains(keys[i]),
        pairs_map(keys.remove(i), values.remove(i)) == pairs_map(keys, values).remove(keys[i]),
{
    let keys2 = keys.remove(i);
    let values2 = values.remove(i);
    assert forall|a: int| 0 <= a < keys2.len() implies #[trigger] keys2[a] == keys[if a < i {
        a
    } else {
        a + 1
    }] && values2[a] == values[if a < i {
        a
    } else {
        a + 1
    }] by {}
    assert(keys2.no_duplicates());
    assert(!keys2.contains(keys[i]));
    assert forall|x: K| keys2.contains(x) <==> (x != keys[i] && keys.contains(x)) by {
        if x != keys[i] && keys.contains(x) {
            let j = keys.index_of(x);
            if j < i {
                assert(keys2[j] == x);
            } else {
                assert(keys2[j - 1] == x);
            }
        }
    }
    assert forall|x: K| #[trigger] keys2.contains(x) implies values2[keys2.index_of(x)] == values[keys.index_of(
        x,
    )] by {
        let a = keys2.index_of(x);
        lemma_pairs_lookup(keys2, values2, a);
        let j = if a < i {
            a
        } else {
            a + 1
        };
        lemma_pairs_lookup(keys, values, j);
    }
    assert(pairs_map(keys2, values2) =~= pairs_map(keys, values).remove(keys[i]));
}

/// The map has exactly the keys of the sequence, so as many entries as
/// the sequence is long.
pub proof fn lemma_pairs_len<K, V>(keys: Seq<K>, values: Seq<V>)
    requires
        paired(keys, values),
    ensures
        pairs_map(keys, values).dom() == keys.to_set(),
        pairs_map(keys, values).dom().finite(),
        pairs_map(keys, values).dom().len() == keys.len(),
{
    assert(pairs_map(keys, values).dom() =~= keys.to_set());
    keys.unique_seq_to_set();
    vstd::seq_lib::seq_to_set_is_finite(keys);
}

/// Empty sequences make the empty map.
pub proof fn lemma_pairs_empty<K, V>()
    ensures
        paired(Seq::<K>::empty(), Seq::<V>::empty()),
        pairs_map(Seq::<K>::empty(), Seq::<V>::empty()) == Map::<K, V>::empty(),
{
    assert(pairs_map(Seq::<K>::empty(), Seq::<V>::empty()) =~= Map::<K, V>::empty());
}

/// The first `i + 1` pairs make the map of the first `i` pairs with pair
/// `i` inserted.
pub proof fn lemma_pairs_take_step<K, V>(keys: Seq<K>, values: Seq<V>, i: int)
    requires
        paired(keys, values),
        0 <= i < keys.len(),
    ensures
        paired(keys.take(i), values.take(i)),
        pairs_map(keys.take(i + 1), values.take(i + 1)) == pairs_map(
            keys.take(i),
            values.take(i),
        ).insert(keys[i], values[i]),
{
    assert(!keys.take(i).contains(keys[i])) by {
        if keys.take(i).contains(keys[i]) {
            let j = keys.take(i).index_of(keys[i]);
            assert(keys[j] == keys[i]);
        }
    }
    lemma_pairs_push(keys.take(i), values.take(i), keys[i], values[i]);
    assert(keys.take(i).push(keys[i]) =~= keys.take(i + 1));
    assert(values.take(i).push(values[i]) =~= values.take(i + 1));
}

/// Filtering keys that do not repeat keeps exactly the keys that satisfy
/// the predicate, each once.
pub proof fn lemma_filter_distinct<K>(keys: Seq<K>, p: spec_fn(K) -> bool)
    requires
        keys.no_duplicates(),
    ensures
        keys.filter(p).no_duplicates(),
        forall|k: K| #[trigger] keys.filter(p).contains(k) <==> keys.contains(k) && p(k),
        keys.filter(p).to_set() == Set::new(|k: K| keys.contains(k) && p(k)),
        keys.filter(p).len() == Set::new(|k: K| keys.contains(k) && p(k)).len(),
    decreases keys.len(),
{
    reveal(Seq::filter);
    let kept = keys.filter(p);
    if keys.len() > 0 {
        let rest = keys.drop_last();
        let last = keys.last();
        lemma_filter_distinct(rest, p);
        assert forall|k: K| keys.contains(k) <==> (k == last || rest.contains(k)) by {
            if keys.contains(k) {
                let i = keys.index_of(k);
                if i < rest.len() {
                    assert(rest[i] == k);
                }
            }
            if rest.contains(k) {
                let i = rest.index_of(k);
                assert(keys[i] == k);
            }
            assert(keys[keys.len() - 1] == last);
        }
        assert(!rest.contains(last)) by {
            if rest.contains(last) {
                let i = rest.index_of(last);
                assert(keys[i] == keys[keys.len() - 1]);
            }
        }
        if p(last) {
            assert(kept == rest.filter(p).push(last));
            assert forall|k: K| #[trigger] kept.contains(k) <==> keys.contains(k) && p(k) by {
                if kept.contains(k) {
                    let i = kept.index_of(k);
                    if i < rest.filter(p).len() {
                        assert(rest.filter(p)[i] == k);
                        assert(rest.filter(p).contains(k));
                    }
                }
                if keys.contains(k) && p(k) {
                    if k == last {
                        assert(kept[kept.len() - 1] == k);
                    } else {
                        let i = rest.filter(p).index_of(k);
                        assert(kept[i] == k);
                    }
                }
            }
            assert forall|i: int, j: int| 0 <= i < kept.len() && 0 <= j < kept.len() && i != j implies kept[i]
                != kept[j] by {
                if i < rest.filter(p).len() {
                    assert(rest.filter(p).contains(kept[i]));
                }
                if j < rest.filter(p).len() {
                    assert(rest.filter(p).contains(kept[j]));
                }
            }
        }
    }
    assert(kept.to_set() =~= Set::new(|k: K| keys.contains(k) && p(k)));
    kept.unique_seq_to_set();
}

} // verus!
