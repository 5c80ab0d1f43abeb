//! Maps held as strictly sorted sequences of keys with parallel values, and
//! the facts that insertion, replacement and removal keep them so.

use vstd::prelude::*;

verus! {

/// Every earlier key is below every later one.
pub open spec fn sorted_by<K>(keys: Seq<K>, lt: spec_fn(K, K) -> bool) -> bool {
    forall|i: int, j: int| 0 <= i < j < keys.len() ==> lt(keys[i], keys[j])
}

/// `lt` is a strict order: irreflexive and transitive.
pub open spec fn strict_order<K>(lt: spec_fn(K, K) -> bool) -> bool {
    &&& forall|a: K| !(#[trigger] lt(a, a))
    &&& forall|a: K, b: K, c: K| #[trigger] lt(a, b) && #[trigger] lt(b, c) ==> lt(a, c)
}

/// The map a key sequence and its parallel value sequence describe.
pub open spec fn keyed_map<K, V>(keys: Seq<K>, vals: Seq<V>) -> Map<K, V> {
    Map::new(|k: K| keys.contains(k), |k: K| vals[keys.index_of(k)])
}

/// In a sorted key sequence a key sits at one position only.
pub proof fn lemma_sorted_unique<K>(keys: Seq<K>, lt: spec_fn(K, K) -> bool, i: int, j: int)
    requires
        sorted_by(keys, lt),
        strict_order(lt),
        0 <= i < keys.len(),
        0 <= j < keys.len(),
        keys[i] == keys[j],
    ensures
        i == j,
{
    if i < j {
        assert(lt(keys[i], keys[j]));
        assert(!lt(keys[i], keys[i]));
    } else if j < i {
        assert(lt(keys[j], keys[i]));
        assert(!lt(keys[j], keys[j]));
    }
}

/// The value the map gives a key is the one at that key's position.
pub proof fn lemma_keyed_map_at<K, V>(keys: Seq<K>, vals: Seq<V>, lt: spec_fn(K, K) -> bool, i: int)
    requires
        sorted_by(keys, lt),
        strict_order(lt),
        keys.len() == vals.len(),
        0 <= i < keys.len(),
    ensures
        keyed_map(keys, vals).contains_key(keys[i]),
        keyed_map(keys, vals)[keys[i]] == vals[i],
{
    assert(keys.contains(keys[i]));
    let j = keys.index_of(keys[i]);
    lemma_sorted_unique(keys, lt, i, j);
}

/// Inserting a key at its sorted place keeps the sequence sorted and adds the
/// pair to the map.
pub proof fn lemma_keyed_map_insert<K, V>(
    keys: Seq<K>,
    vals: Seq<V>,
    lt: spec_fn(K, K) -> bool,
    pos: int,
    k: K,
    v: V,
)
    requires
        sorted_by(keys, lt),
        strict_order(lt),
        keys.len() == vals.len(),
        0 <= pos <= keys.len(),
        forall|j: int| 0 <= j < pos ==> lt(#[trigger] keys[j], k),
        forall|j: int| pos <= j < keys.len() ==> lt(k, #[trigger] keys[j]),
    ensures
        sorted_by(keys.insert(pos, k), lt),
        keyed_map(keys.insert(pos, k), vals.insert(pos, v)) == keyed_map(keys, vals).insert(k, v),
{
    let nk = keys.insert(pos, k);
    let nv = vals.insert(pos, v);
    assert forall|i: int, j: int| 0 <= i < j < nk.len() implies lt(nk[i], nk[j]) by {
        if i < pos && j < pos {
        } else if i < pos && j == pos {
        } else if i < pos && j > pos {
            assert(nk[j] == keys[j - 1]);
        } else if i == pos {
            assert(nk[j] == keys[j - 1]);
        } else {
            assert(nk[i] == keys[i - 1]);
            assert(nk[j] == keys[j - 1]);
        }
    }
    let m = keyed_map(keys, vals).insert(k, v);
    let n = keyed_map(nk, nv);
    assert forall|x: K| n.contains_key(x) <==> m.contains_key(x) by {
        if n.contains_key(x) {
            let i = choose|i: int| 0 <= i < nk.len() && nk[i] == x;
            if i < pos {
                assert(keys[i] == x);
            } else if i > pos {
                assert(keys[i - 1] == x);
            }
        }
        if m.contains_key(x) && x != k {
            let i = choose|i: int| 0 <= i < keys.len() && keys[i] == x;
            if i < pos {
                assert(nk[i] == x);
            } else {
                assert(nk[i + 1] == x);
            }
        }
        if x == k {
            assert(nk[pos] == k);
        }
    }
    assert forall|x: K| #[trigger] n.contains_key(x) implies n[x] == m[x] by {
        let i = choose|i: int| 0 <= i < nk.len() && nk[i] == x;
        lemma_keyed_map_at(nk, nv, lt, i);
        if i < pos {
            lemma_keyed_map_at(keys, vals, lt, i);
            assert(x != k);
        } else if i > pos {
            lemma_keyed_map_at(keys, vals, lt, i - 1);
            assert(lt(k, keys[i - 1]));
            assert(x != k);
        }
    }
    assert(n =~= m);
}

/// Replacing the value at a position sets that key's value in the map.
pub proof fn lemma_keyed_map_update<K, V>(
    keys: Seq<K>,
    vals: Seq<V>,
    lt: spec_fn(K, K) -> bool,
    pos: int,
    v: V,
)
    requires
        sorted_by(keys, lt),
        strict_order(lt),
        keys.len() == vals.len(),
        0 <= pos < keys.len(),
    ensures
        keyed_map(keys, vals.update(pos, v)) == keyed_map(keys, vals).insert(keys[pos], v),
{
    let nv = vals.update(pos, v);
    let m = keyed_map(keys, vals).insert(keys[pos], v);
    let n = keyed_map(keys, nv);
    assert forall|x: K| #[trigger] n.contains_key(x) implies n[x] == m[x] by {
        let i = choose|i: int| 0 <= i < keys.len() && keys[i] == x;
        lemma_keyed_map_at(keys, nv, lt, i);
        lemma_keyed_map_at(keys, vals, lt, i);
        if i != pos {
            if x == keys[pos] {
                lemma_sorted_unique(keys, lt, i, pos);
            }
        }
    }
    assert(keys.contains(keys[pos]));
    assert(n =~= m);
}

/// Removing the pair at a position keeps the sequence sorted and removes the
/// key from the map.
pub proof fn lemma_keyed_map_remove<K, V>(
    keys: Seq<K>,
    vals: Seq<V>,
    lt: spec_fn(K, K) -> bool,
    pos: int,
)
    requires
        sorted_by(keys, lt),
        strict_order(lt),
        keys.len() == vals.len(),
        0 <= pos < keys.len(),
    ensures
        sorted_by(keys.remove(pos), lt),
        keyed_map(keys.remove(pos), vals.remove(pos)) == keyed_map(keys, vals).remove(keys[pos]),
{
    let nk = keys.remove(pos);
    let nv = vals.remove(pos);
    assert forall|i: int, j: int| 0 <= i < j < nk.len() implies lt(nk[i], nk[j]) by {
        let a = if i < pos { i } else { i + 1 };
        let b = if j < pos { j } else { j + 1 };
        assert(nk[i] == keys[a]);
        assert(nk[j] == keys[b]);
    }
    let m = keyed_map(keys, vals).remove(keys[pos]);
    let n = keyed_map(nk, nv);
    assert forall|x: K| n.contains_key(x) <==> m.contains_key(x) by {
        if n.contains_key(x) {
            let i = choose|i: int| 0 <= i < nk.len() && nk[i] == x;
            let a = if i < pos { i } else { i + 1 };
            assert(keys[a] == x);
            if x == keys[pos] {
                lemma_sorted_unique(keys, lt, a, pos);
            }
        }
        if m.contains_key(x) {
            let i = choose|i: int| 0 <= i < keys.len() && keys[i] == x;
            assert(i != pos);
            if i < pos {
                assert(nk[i] == x);
            } else {
                assert(nk[i - 1] == x);
            }
        }
    }
    assert forall|x: K| #[trigger] n.contains_key(x) implies n[x] == m[x] by {
        let i = choose|i: int| 0 <= i < nk.len() && nk[i] == x;
        let a = if i < pos { i } else { i + 1 };
        lemma_keyed_map_at(nk, nv, lt, i);
        lemma_keyed_map_at(keys, vals, lt, a);
    }
    assert(n =~= m);
}

} // verus!
