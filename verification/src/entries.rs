//! Lists of (key, value) entries with distinct keys, read as maps.
use vstd::prelude::*;

verus! {

/// The map from keys to values that a list of entries with distinct keys spells.
pub open spec fn map_of<K, V>(v: Seq<(K, V)>) -> Map<K, V>
    decreases v.len(),
{
    if v.len() == 0 {
        Map::empty()
    } else {
        map_of(v.drop_last()).insert(v.last().0, v.last().1)
    }
}

/// No key occurs twice.
pub open spec fn keys_distinct<K, V>(v: Seq<(K, V)>) -> bool {
    forall|i: int, j: int| 0 <= i < j < v.len() ==> (#[trigger] v[i]).0 != (#[trigger] v[j]).0
}

/// An entry of a list with distinct keys is in the map it spells.
pub proof fn lemma_map_of_entry<K, V>(v: Seq<(K, V)>, i: int)
    requires
        keys_distinct(v),
        0 <= i < v.len(),
    ensures
        map_of(v).contains_key(v[i].0),
        map_of(v)[v[i].0] == v[i].1,
    decreases v.len(),
{
    if i < v.len() - 1 {
        let w = v.drop_last();
        assert(w[i] == v[i]);
        lemma_map_of_entry(w, i);
        assert(v.last().0 != v[i].0);
    }
}

/// A key that no entry has is not in the map.
pub proof fn lemma_map_of_absent<K, V>(v: Seq<(K, V)>, k: K)
    requires
        forall|i: int| 0 <= i < v.len() ==> (#[trigger] v[i]).0 != k,
    ensures
        !map_of(v).contains_key(k),
    decreases v.len(),
{
    if v.len() > 0 {
        let w = v.drop_last();
        assert forall|i: int| 0 <= i < w.len() implies (#[trigger] w[i]).0 != k by {
            assert(w[i] == v[i]);
        }
        lemma_map_of_absent(w, k);
    }
}

/// Replacing the value of one entry replaces that key's value in the map.
pub proof fn lemma_map_of_update<K, V>(v: Seq<(K, V)>, i: int, x: V)
    requires
        keys_distinct(v),
        0 <= i < v.len(),
    ensures
        map_of(v.update(i, (v[i].0, x))) == map_of(v).insert(v[i].0, x),
    decreases v.len(),
{
    let u = v.update(i, (v[i].0, x));
    if i == v.len() - 1 {
        assert(u.drop_last() =~= v.drop_last());
        lemma_map_of_absent(v.drop_last(), v[i].0);
        assert(map_of(u) =~= map_of(v).insert(v[i].0, x));
    } else {
        let w = v.drop_last();
        assert(w[i] == v[i]);
        assert(keys_distinct(w));
        lemma_map_of_update(w, i, x);
        assert(u.drop_last() =~= w.update(i, (v[i].0, x)));
        assert(v.last().0 != v[i].0);
        assert(map_of(u) =~= map_of(v).insert(v[i].0, x));
    }
}

} // verus!
