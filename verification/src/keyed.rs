//! Sequences of entries that are found by a key, no key twice: the model of
//! the state's collections, and how pushing, removing and replacing an entry
//! shows in the map from keys to entries.

use vstd::prelude::*;

verus! {

/// Whether some entry of `s` has the key `k`.
pub open spec fn has_key<T, K>(s: Seq<T>, key: spec_fn(T) -> K, k: K) -> bool {
    exists|i: int| 0 <= i < s.len() && #[trigger] key(s[i]) == k
}

/// The position of an entry with the key `k`.
pub open spec fn index_of<T, K>(s: Seq<T>, key: spec_fn(T) -> K, k: K) -> int {
    choose|i: int| 0 <= i < s.len() && #[trigger] key(s[i]) == k
}

/// Whether no two entries of `s` share a key.
pub open spec fn keys_distinct<T, K>(s: Seq<T>, key: spec_fn(T) -> K) -> bool {
    forall|i: int, j: int|
        0 <= i < s.len() && 0 <= j < s.len() && i != j ==> #[trigger] key(s[i]) != #[trigger] key(
            s[j],
        )
}

/// The entries of `s` by their keys.
pub open spec fn as_map<T, K>(s: Seq<T>, key: spec_fn(T) -> K) -> Map<K, T> {
    Map::new(|k: K| has_key(s, key, k), |k: K| s[index_of(s, key, k)])
}

pub proof fn lemma_index_of<T, K>(s: Seq<T>, key: spec_fn(T) -> K, i: int)
    requires
        keys_distinct(s, key),
        0 <= i < s.len(),
    ensures
        has_key(s, key, key(s[i])),
        index_of(s, key, key(s[i])) == i,
        as_map(s, key).contains_key(key(s[i])),
        as_map(s, key)[key(s[i])] == s[i],
{
    let k = key(s[i]);
    assert(0 <= i < s.len() && key(s[i]) == k);
    let j = index_of(s, key, k);
    assert(0 <= j < s.len() && key(s[j]) == k);
    if j != i {
        assert(key(s[i]) != key(s[j]));
    }
}

pub proof fn lemma_empty<T, K>(key: spec_fn(T) -> K)
    ensures
        keys_distinct(Seq::<T>::empty(), key),
        as_map(Seq::<T>::empty(), key) =~= Map::<K, T>::empty(),
{
}

/// Pushing an entry under a new key inserts it into the map.
pub proof fn lemma_push<T, K>(s: Seq<T>, key: spec_fn(T) -> K, v: T)
    requires
        keys_distinct(s, key),
        !has_key(s, key, key(v)),
    ensures
        keys_distinct(s.push(v), key),
        as_map(s.push(v), key) =~= as_map(s, key).insert(key(v), v),
{
    let t = s.push(v);
    assert forall|i: int, j: int| 0 <= i < t.len() && 0 <= j < t.len() && i != j implies key(t[i])
        != key(t[j]) by {
        if i < s.len() && j < s.len() {
            assert(key(s[i]) != key(s[j]));
        } else if i < s.len() {
            assert(key(s[i]) != key(v));
        } else {
            assert(key(s[j]) != key(v));
        }
    }
    assert forall|k: K| has_key(t, key, k) <==> (k == key(v) || has_key(s, key, k)) by {
        if has_key(t, key, k) {
            let i = index_of(t, key, k);
            if i < s.len() {
                assert(key(s[i]) == k);
            }
        }
        if has_key(s, key, k) {
            let i = index_of(s, key, k);
            assert(key(t[i]) == k);
        }
        if k == key(v) {
            assert(key(t[s.len() as int]) == k);
        }
    }
    assert forall|k: K| has_key(t, key, k) implies #[trigger] as_map(t, key)[k] == as_map(
        s,
        key,
    ).insert(key(v), v)[k] by {
        let i = index_of(t, key, k);
        lemma_index_of(t, key, i);
        if i < s.len() {
            assert(s[i] == t[i]);
            lemma_index_of(s, key, i);
        }
    }
}

/// Removing the entry at a position removes its key from the map.
pub proof fn lemma_remove<T, K>(s: Seq<T>, key: spec_fn(T) -> K, at: int)
    requires
        keys_distinct(s, key),
        0 <= at < s.len(),
    ensures
        keys_distinct(s.remove(at), key),
        as_map(s.remove(at), key) =~= as_map(s, key).remove(key(s[at])),
        !has_key(s.remove(at), key, key(s[at])),
{
    let t = s.remove(at);
    assert forall|i: int| 0 <= i < t.len() implies t[i] == s[if i < at {
        i
    } else {
        i + 1
    }] by {}
    assert forall|i: int, j: int| 0 <= i < t.len() && 0 <= j < t.len() && i != j implies key(t[i])
        != key(t[j]) by {
        let i2 = if i < at {
            i
        } else {
            i + 1
        };
        let j2 = if j < at {
            j
        } else {
            j + 1
        };
        assert(key(s[i2]) != key(s[j2]));
    }
    assert forall|k: K| has_key(t, key, k) <==> (k != key(s[at]) && has_key(s, key, k)) by {
        if has_key(t, key, k) {
            let i = index_of(t, key, k);
            let i2 = if i < at {
                i
            } else {
                i + 1
            };
            assert(key(s[i2]) == k);
            assert(key(s[i2]) != key(s[at]));
        }
        if k != key(s[at]) && has_key(s, key, k) {
            let i = index_of(s, key, k);
            let i2 = if i < at {
                i
            } else {
                i - 1
            };
            assert(key(t[i2]) == k);
        }
    }
    assert forall|k: K| has_key(t, key, k) implies #[trigger] as_map(t, key)[k] == as_map(
        s,
        key,
    )[k] by {
        let i = index_of(t, key, k);
        let i2 = if i < at {
            i
        } else {
            i + 1
        };
        lemma_index_of(t, key, i);
        lemma_index_of(s, key, i2);
    }
}

/// Replacing an entry by one with the same key replaces it in the map.
pub proof fn lemma_update<T, K>(s: Seq<T>, key: spec_fn(T) -> K, at: int, v: T)
    requires
        keys_distinct(s, key),
        0 <= at < s.len(),
        key(v) == key(s[at]),
    ensures
        keys_distinct(s.update(at, v), key),
        as_map(s.update(at, v), key) =~= as_map(s, key).insert(key(v), v),
{
    let t = s.update(at, v);
    assert forall|i: int, j: int| 0 <= i < t.len() && 0 <= j < t.len() && i != j implies key(t[i])
        != key(t[j]) by {
        assert(key(s[i]) != key(s[j]));
    }
    assert forall|k: K| has_key(t, key, k) <==> has_key(s, key, k) by {
        if has_key(t, key, k) {
            let i = index_of(t, key, k);
            assert(key(s[i]) == k);
        }
        if has_key(s, key, k) {
            let i = index_of(s, key, k);
            assert(key(t[i]) == k);
        }
    }
    assert(key(s[at]) == key(v));
    assert forall|k: K| has_key(t, key, k) implies #[trigger] as_map(t, key)[k] == as_map(
        s,
        key,
    ).insert(key(v), v)[k] by {
        let i = index_of(t, key, k);
        lemma_index_of(t, key, i);
        lemma_index_of(s, key, i);
    }
}

/// The views of the entries of `s`, in order.
pub open spec fn views<T: View>(s: Seq<T>) -> Seq<T::V> {
    Seq::new(s.len(), |i: int| s[i]@)
}

pub proof fn lemma_views_push<T: View>(s: Seq<T>, v: T)
    ensures
        views(s.push(v)) =~= views(s).push(v@),
{
}

pub proof fn lemma_views_remove<T: View>(s: Seq<T>, at: int)
    requires
        0 <= at < s.len(),
    ensures
        views(s.remove(at)) =~= views(s).remove(at),
{
}

pub proof fn lemma_views_update<T: View>(s: Seq<T>, at: int, v: T)
    requires
        0 <= at < s.len(),
    ensures
        views(s.update(at, v)) =~= views(s).update(at, v@),
{
}

/// The views of the entries of a list by their keys.
pub open spec fn list_map<T: View, K>(list: Seq<T>, key: spec_fn(T::V) -> K) -> Map<K, T::V> {
    as_map(views(list), key)
}

/// Whether no two entries of a list share a key.
pub open spec fn list_wf<T: View, K>(list: Seq<T>, key: spec_fn(T::V) -> K) -> bool {
    keys_distinct(views(list), key)
}

pub proof fn lemma_list_empty<T: View, K>(key: spec_fn(T::V) -> K)
    ensures
        list_wf(Seq::<T>::empty(), key),
        list_map(Seq::<T>::empty(), key) == Map::<K, T::V>::empty(),
{
    assert(views(Seq::<T>::empty()) =~= Seq::<T::V>::empty());
    lemma_empty::<T::V, K>(key);
}

pub proof fn lemma_list_at<T: View, K>(list: Seq<T>, key: spec_fn(T::V) -> K, at: int)
    requires
        list_wf(list, key),
        0 <= at < list.len(),
    ensures
        list_map(list, key).contains_key(key(list[at]@)),
        list_map(list, key)[key(list[at]@)] == list[at]@,
{
    lemma_index_of(views(list), key, at);
}

pub proof fn lemma_list_absent<T: View, K>(list: Seq<T>, key: spec_fn(T::V) -> K, k: K)
    requires
        forall|i: int| 0 <= i < list.len() ==> key(#[trigger] list[i]@) != k,
    ensures
        !list_map(list, key).contains_key(k),
{
    if has_key(views(list), key, k) {
        let i = index_of(views(list), key, k);
        assert(key(list[i]@) == k);
    }
}

pub proof fn lemma_list_push<T: View, K>(list: Seq<T>, key: spec_fn(T::V) -> K, v: T)
    requires
        list_wf(list, key),
        !list_map(list, key).contains_key(key(v@)),
    ensures
        list_wf(list.push(v), key),
        list_map(list.push(v), key) == list_map(list, key).insert(key(v@), v@),
{
    lemma_views_push(list, v);
    lemma_push(views(list), key, v@);
    assert(list_map(list.push(v), key) =~= list_map(list, key).insert(key(v@), v@));
}

pub proof fn lemma_list_remove<T: View, K>(list: Seq<T>, key: spec_fn(T::V) -> K, at: int)
    requires
        list_wf(list, key),
        0 <= at < list.len(),
    ensures
        list_wf(list.remove(at), key),
        list_map(list.remove(at), key) == list_map(list, key).remove(key(list[at]@)),
{
    lemma_views_remove(list, at);
    lemma_remove(views(list), key, at);
    assert(list_map(list.remove(at), key) =~= list_map(list, key).remove(key(list[at]@)));
}

pub proof fn lemma_list_update<T: View, K>(list: Seq<T>, key: spec_fn(T::V) -> K, at: int, v: T)
    requires
        list_wf(list, key),
        0 <= at < list.len(),
        key(v@) == key(list[at]@),
    ensures
        list_wf(list.update(at, v), key),
        list_map(list.update(at, v), key) == list_map(list, key).insert(key(v@), v@),
{
    lemma_views_update(list, at, v);
    lemma_update(views(list), key, at, v@);
    assert(list_map(list.update(at, v), key) =~= list_map(list, key).insert(key(v@), v@));
}

} // verus!
