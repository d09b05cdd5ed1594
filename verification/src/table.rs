//! Keyed tables kept as vectors: each entry has a key, no key occurs twice,
//! and the table means the map from each key to its entry's value.

use vstd::prelude::*;

verus! {

/// No two entries of `s` have the same key.
pub open spec fn unique_keys<A, K>(s: Seq<A>, key: spec_fn(A) -> K) -> bool {
    forall|i: int, j: int|
        0 <= i < s.len() && 0 <= j < s.len() && i != j ==> key(#[trigger] s[i]) != key(#[trigger] s[j])
}

/// The map from each entry's key to its value (a later entry wins).
pub open spec fn fold_map<A, K, V>(s: Seq<A>, key: spec_fn(A) -> K, val: spec_fn(A) -> V) -> Map<K, V>
    decreases s.len(),
{
    if s.len() == 0 {
        Map::empty()
    } else {
        fold_map(s.drop_last(), key, val).insert(key(s.last()), val(s.last()))
    }
}

/// The keys of the map are the keys of the entries.
pub proof fn lemma_fold_dom<A, K, V>(s: Seq<A>, key: spec_fn(A) -> K, val: spec_fn(A) -> V, k: K)
    ensures
        fold_map(s, key, val).dom().contains(k) <==> exists|i: int| 0 <= i < s.len() && key(#[trigger] s[i]) == k,
    decreases s.len(),
{
    if s.len() > 0 {
        lemma_fold_dom(s.drop_last(), key, val, k);
        if fold_map(s, key, val).dom().contains(k) && key(s.last()) != k {
            let i = choose|i: int| 0 <= i < s.len() - 1 && key(#[trigger] s.drop_last()[i]) == k;
            assert(s[i] == s.drop_last()[i]);
        }
        if exists|i: int| 0 <= i < s.len() && key(#[trigger] s[i]) == k {
            let i = choose|i: int| 0 <= i < s.len() && key(#[trigger] s[i]) == k;
            if i < s.len() - 1 {
                assert(s.drop_last()[i] == s[i]);
            }
        }
    }
}

/// With unique keys, the map takes each entry's key to that entry's value.
pub proof fn lemma_fold_index<A, K, V>(s: Seq<A>, key: spec_fn(A) -> K, val: spec_fn(A) -> V, i: int)
    requires
        unique_keys(s, key),
        0 <= i < s.len(),
    ensures
        fold_map(s, key, val).dom().contains(key(s[i])),
        fold_map(s, key, val)[key(s[i])] == val(s[i]),
    decreases s.len(),
{
    if i < s.len() - 1 {
        let t = s.drop_last();
        assert(t[i] == s[i]);
        assert(unique_keys(t, key)) by {
            assert forall|a: int, b: int| 0 <= a < t.len() && 0 <= b < t.len() && a != b implies key(#[trigger] t[a]) != key(#[trigger] t[b]) by {
                assert(t[a] == s[a] && t[b] == s[b]);
            }
        }
        lemma_fold_index(t, key, val, i);
        assert(key(s.last()) != key(s[i]));
    }
}

/// Appending an entry with a new key adds that key.
pub proof fn lemma_fold_push<A, K, V>(s: Seq<A>, key: spec_fn(A) -> K, val: spec_fn(A) -> V, a: A)
    requires
        unique_keys(s, key),
        !fold_map(s, key, val).dom().contains(key(a)),
    ensures
        unique_keys(s.push(a), key),
        fold_map(s.push(a), key, val) == fold_map(s, key, val).insert(key(a), val(a)),
{
    assert(s.push(a).drop_last() == s);
    assert forall|i: int, j: int| 0 <= i < s.push(a).len() && 0 <= j < s.push(a).len() && i != j implies key(#[trigger] s.push(a)[i]) != key(#[trigger] s.push(a)[j]) by {
        if i == s.len() {
            lemma_fold_dom(s, key, val, key(a));
            assert(s.push(a)[j] == s[j]);
        } else if j == s.len() {
            lemma_fold_dom(s, key, val, key(a));
            assert(s.push(a)[i] == s[i]);
        } else {
            assert(s.push(a)[i] == s[i] && s.push(a)[j] == s[j]);
        }
    }
}

/// Removing an entry removes its key.
pub proof fn lemma_fold_remove<A, K, V>(s: Seq<A>, key: spec_fn(A) -> K, val: spec_fn(A) -> V, i: int)
    requires
        unique_keys(s, key),
        0 <= i < s.len(),
    ensures
        unique_keys(s.remove(i), key),
        fold_map(s.remove(i), key, val) == fold_map(s, key, val).remove(key(s[i])),
    decreases s.len(),
{
    let r = s.remove(i);
    assert forall|x: int, y: int| 0 <= x < r.len() && 0 <= y < r.len() && x != y implies key(#[trigger] r[x]) != key(#[trigger] r[y]) by {
        let x2 = if x < i { x } else { x + 1 };
        let y2 = if y < i { y } else { y + 1 };
        assert(r[x] == s[x2] && r[y] == s[y2]);
    }
    let t = s.drop_last();
    assert(unique_keys(t, key)) by {
        assert forall|p: int, q: int| 0 <= p < t.len() && 0 <= q < t.len() && p != q implies key(#[trigger] t[p]) != key(#[trigger] t[q]) by {
            assert(t[p] == s[p] && t[q] == s[q]);
        }
    }
    if i == s.len() - 1 {
        assert(r == t);
        lemma_fold_dom(t, key, val, key(s[i]));
        if fold_map(t, key, val).dom().contains(key(s[i])) {
            let j = choose|j: int| 0 <= j < t.len() && key(#[trigger] t[j]) == key(s[i]);
            assert(t[j] == s[j]);
        }
        assert(fold_map(r, key, val) =~= fold_map(s, key, val).remove(key(s[i])));
    } else {
        lemma_fold_remove(t, key, val, i);
        assert(r.drop_last() == t.remove(i));
        assert(r.last() == s.last());
        assert(key(s.last()) != key(s[i]));
        assert(fold_map(r, key, val) =~= fold_map(s, key, val).remove(key(s[i])));
    }
}

} // verus!
