//! Association-list helpers.
//!
//! The engine keeps its small keyed collections (temp-attribute values,
//! low-HP boss timestamps, cached cooldown entries, active buffs) as vectors
//! of key/value pairs with pairwise-distinct keys, so that lookup, update and
//! iteration order are all plain facts about a sequence.

use vstd::prelude::*;

verus! {

/// All keys in the pair sequence are pairwise distinct.
pub open spec fn keys_unique<K, V>(s: Seq<(K, V)>) -> bool {
    forall|i: int, j: int| 0 <= i < j < s.len() ==> s[i].0 != s[j].0
}

/// Index of the first pair whose key is `k`, starting the search at `i`;
/// `-1` when no pair at or after `i` has that key.
pub open spec fn first_key_index_from<K, V>(s: Seq<(K, V)>, k: K, i: int) -> int
    decreases s.len() - i,
{
    if i < 0 || i >= s.len() {
        -1
    } else if s[i].0 == k {
        i
    } else {
        first_key_index_from(s, k, i + 1)
    }
}

/// Index of the first pair whose key is `k`, or `-1`.
pub open spec fn first_key_index<K, V>(s: Seq<(K, V)>, k: K) -> int {
    first_key_index_from(s, k, 0)
}

/// Value associated with key `k`, taking the first matching pair.
pub open spec fn kv_get<K, V>(s: Seq<(K, V)>, k: K) -> Option<V> {
    let i = first_key_index(s, k);
    if i == -1 {
        None
    } else {
        Some(s[i].1)
    }
}

/// The pair sequence after key `k` is bound to `v`: the first pair with that
/// key is overwritten, or a new pair is appended.
pub open spec fn kv_upsert<K, V>(s: Seq<(K, V)>, k: K, v: V) -> Seq<(K, V)> {
    let i = first_key_index(s, k);
    if i == -1 {
        s.push((k, v))
    } else {
        s.update(i, (k, v))
    }
}

/// The pair sequence after key `k` is removed, if present.
pub open spec fn kv_remove<K, V>(s: Seq<(K, V)>, k: K) -> Seq<(K, V)> {
    let i = first_key_index(s, k);
    if i == -1 {
        s
    } else {
        s.remove(i)
    }
}

/// What `first_key_index_from` finds: either a first occurrence, or proof
/// that the key does not occur at or after the starting point.
pub proof fn lemma_first_key_index_from<K, V>(s: Seq<(K, V)>, k: K, i: int)
    requires
        0 <= i <= s.len(),
    ensures
        ({
            let r = first_key_index_from(s, k, i);
            &&& r == -1 ==> forall|j: int| i <= j < s.len() ==> s[j].0 != k
            &&& r != -1 ==> i <= r < s.len() && s[r].0 == k && forall|j: int|
                i <= j < r ==> s[j].0 != k
        }),
    decreases s.len() - i,
{
    if i < s.len() && s[i].0 != k {
        lemma_first_key_index_from(s, k, i + 1);
    }
}

/// Two sequences with pointwise-equal keys have equal first-occurrence
/// indices for every key.
pub proof fn lemma_first_key_index_same_keys<K, V1, V2>(
    s1: Seq<(K, V1)>,
    s2: Seq<(K, V2)>,
    k: K,
    i: int,
)
    requires
        s1.len() == s2.len(),
        forall|j: int| 0 <= j < s1.len() ==> s1[j].0 == s2[j].0,
        0 <= i <= s1.len(),
    ensures
        first_key_index_from(s1, k, i) == first_key_index_from(s2, k, i),
    decreases s1.len() - i,
{
    if i < s1.len() && s1[i].0 != k {
        lemma_first_key_index_same_keys(s1, s2, k, i + 1);
    }
}

/// Appending a pair does not disturb the first occurrence of keys that
/// already occur, and introduces exactly the new key otherwise.
pub proof fn lemma_first_key_index_push<K, V>(s: Seq<(K, V)>, k: K, p: (K, V), i: int)
    requires
        0 <= i <= s.len(),
    ensures
        first_key_index_from(s, k, i) != -1 ==> first_key_index_from(s.push(p), k, i)
            == first_key_index_from(s, k, i),
        first_key_index_from(s, k, i) == -1 && p.0 == k ==> first_key_index_from(
            s.push(p),
            k,
            i,
        ) == s.len(),
        first_key_index_from(s, k, i) == -1 && p.0 != k ==> first_key_index_from(
            s.push(p),
            k,
            i,
        ) == -1,
    decreases s.len() - i,
{
    if i < s.len() {
        if s[i].0 != k {
            lemma_first_key_index_push(s, k, p, i + 1);
        }
    } else {
        assert(first_key_index_from(s, k, i) == -1);
        assert(s.push(p)[i] == p);
        if p.0 == k {
            assert(first_key_index_from(s.push(p), k, i) == i);
        } else {
            assert(first_key_index_from(s.push(p), k, i + 1) == -1);
            assert(first_key_index_from(s.push(p), k, i) == -1);
        }
    }
}


/// Index of the first pair with key `k` in a pair vector with `i32` keys.
pub fn kv_find_i32<V>(v: &Vec<(i32, V)>, k: i32) -> (r: Option<usize>)
    ensures
        r is Some ==> first_key_index(v@, k) == r->Some_0 as int && r->Some_0 < v@.len(),
        r is None ==> first_key_index(v@, k) == -1,
{
    let mut i: usize = 0;
    while i < v.len()
        invariant
            0 <= i <= v@.len(),
            first_key_index(v@, k) == first_key_index_from(v@, k, i as int),
        decreases v@.len() - i,
    {
        if v[i].0 == k {
            return Some(i);
        }
        i = i + 1;
    }
    None
}

/// Inserts or overwrites the value for key `k`, returning the previous value.
/// Keeps keys distinct and leaves every other key's value unchanged.
pub fn kv_set_i32<V: Copy>(v: &mut Vec<(i32, V)>, k: i32, value: V) -> (prev: Option<V>)
    requires
        keys_unique(old(v)@),
    ensures
        keys_unique(final(v)@),
        final(v)@ == kv_upsert(old(v)@, k, value),
        prev == kv_get(old(v)@, k),
        kv_get(final(v)@, k) == Some(value),
        forall|k2: i32| k2 != k ==> kv_get(final(v)@, k2) == kv_get(old(v)@, k2),
        prev is Some ==> final(v)@.len() == old(v)@.len(),
        prev is None ==> final(v)@.len() == old(v)@.len() + 1,
{
    proof {
        lemma_first_key_index_from(v@, k, 0);
    }
    let found = kv_find_i32(v, k);
    match found {
        Some(i) => {
            let prev = v[i].1;
            let e = &mut v[i];
            e.1 = value;
            proof {
                let oldv = old(v)@;
                let newv = v@;
                assert(forall|j: int| 0 <= j < oldv.len() ==> oldv[j].0 == newv[j].0);
                assert forall|k2: i32| k2 != k implies kv_get(newv, k2) == kv_get(oldv, k2) by {
                    lemma_first_key_index_same_keys(oldv, newv, k2, 0);
                    lemma_first_key_index_from(oldv, k2, 0);
                }
                lemma_first_key_index_same_keys(oldv, newv, k, 0);
            }
            Some(prev)
        },
        None => {
            proof {
                lemma_first_key_index_from(v@, k, 0);
            }
            v.push((k, value));
            proof {
                let oldv = old(v)@;
                let newv = v@;
                assert(newv == oldv.push((k, value)));
                lemma_first_key_index_push(oldv, k, (k, value), 0);
                assert forall|k2: i32| k2 != k implies kv_get(newv, k2) == kv_get(oldv, k2) by {
                    lemma_first_key_index_push(oldv, k2, (k, value), 0);
                    lemma_first_key_index_from(oldv, k2, 0);
                }
                assert forall|i: int, j: int| 0 <= i < j < newv.len() implies newv[i].0
                    != newv[j].0 by {
                    if j == newv.len() - 1 {
                        lemma_first_key_index_from(oldv, k, 0);
                        assert(oldv[i].0 != k);
                    }
                }
            }
            None
        },
    }
}

/// Looks up `k` in a pair vector with `i64` keys.
pub fn kv_get_i64<V: Copy>(v: &Vec<(i64, V)>, k: i64) -> (r: Option<V>)
    ensures
        r == kv_get(v@, k),
{
    let mut i: usize = 0;
    while i < v.len()
        invariant
            0 <= i <= v@.len(),
            first_key_index(v@, k) == first_key_index_from(v@, k, i as int),
        decreases v@.len() - i,
    {
        if v[i].0 == k {
            return Some(v[i].1);
        }
        i = i + 1;
    }
    None
}

/// Index of the first pair with key `k` in a pair vector with `i64` keys.
pub fn kv_find_i64<V>(v: &Vec<(i64, V)>, k: i64) -> (r: Option<usize>)
    ensures
        r is Some ==> first_key_index(v@, k) == r->Some_0 as int && r->Some_0 < v@.len(),
        r is None ==> first_key_index(v@, k) == -1,
{
    let mut i: usize = 0;
    while i < v.len()
        invariant
            0 <= i <= v@.len(),
            first_key_index(v@, k) == first_key_index_from(v@, k, i as int),
        decreases v@.len() - i,
    {
        if v[i].0 == k {
            return Some(i);
        }
        i = i + 1;
    }
    None
}

/// Inserts or overwrites the value for an `i64` key.
pub fn kv_set_i64<V: Copy>(v: &mut Vec<(i64, V)>, k: i64, value: V) -> (prev: Option<V>)
    requires
        keys_unique(old(v)@),
    ensures
        keys_unique(final(v)@),
        final(v)@ == kv_upsert(old(v)@, k, value),
        prev == kv_get(old(v)@, k),
        kv_get(final(v)@, k) == Some(value),
        forall|k2: i64| k2 != k ==> kv_get(final(v)@, k2) == kv_get(old(v)@, k2),
{
    proof {
        lemma_first_key_index_from(v@, k, 0);
    }
    let found = kv_find_i64(v, k);
    match found {
        Some(i) => {
            let prev = v[i].1;
            let e = &mut v[i];
            e.1 = value;
            proof {
                let oldv = old(v)@;
                let newv = v@;
                assert(forall|j: int| 0 <= j < oldv.len() ==> oldv[j].0 == newv[j].0);
                assert forall|k2: i64| k2 != k implies kv_get(newv, k2) == kv_get(oldv, k2) by {
                    lemma_first_key_index_same_keys(oldv, newv, k2, 0);
                    lemma_first_key_index_from(oldv, k2, 0);
                }
                lemma_first_key_index_same_keys(oldv, newv, k, 0);
            }
            Some(prev)
        },
        None => {
            proof {
                lemma_first_key_index_from(v@, k, 0);
            }
            v.push((k, value));
            proof {
                let oldv = old(v)@;
                let newv = v@;
                assert(newv == oldv.push((k, value)));
                lemma_first_key_index_push(oldv, k, (k, value), 0);
                assert forall|k2: i64| k2 != k implies kv_get(newv, k2) == kv_get(oldv, k2) by {
                    lemma_first_key_index_push(oldv, k2, (k, value), 0);
                    lemma_first_key_index_from(oldv, k2, 0);
                }
                assert forall|i: int, j: int| 0 <= i < j < newv.len() implies newv[i].0
                    != newv[j].0 by {
                    if j == newv.len() - 1 {
                        lemma_first_key_index_from(oldv, k, 0);
                        assert(oldv[i].0 != k);
                    }
                }
            }
            None
        },
    }
}

/// Removes the pair with an `i64` key, if present.
pub fn kv_remove_i64<V>(v: &mut Vec<(i64, V)>, k: i64)
    requires
        keys_unique(old(v)@),
    ensures
        keys_unique(final(v)@),
        final(v)@ == kv_remove(old(v)@, k),
        kv_get(final(v)@, k) is None,
        forall|k2: i64| k2 != k ==> kv_get(final(v)@, k2) == kv_get(old(v)@, k2),
{
    proof {
        lemma_first_key_index_from(v@, k, 0);
    }
    let found = kv_find_i64(v, k);
    match found {
        Some(i) => {
            v.remove(i);
            proof {
                let oldv = old(v)@;
                let newv = v@;
                assert forall|a: int, b: int| 0 <= a < b < newv.len() implies newv[a].0
                    != newv[b].0 by {
                    let a0: int = if a < i { a } else { a + 1 };
                    let b0: int = if b < i { b } else { b + 1 };
                    assert(newv[a] == oldv[a0]);
                    assert(newv[b] == oldv[b0]);
                }
                lemma_kv_remove_at(oldv, k, i as int);
            }
        },
        None => {
            proof {
                lemma_first_key_index_from(old(v)@, k, 0);
            }
        },
    }
}

/// Removing the first occurrence of a key removes the key, and no other.
pub proof fn lemma_kv_remove_at<K, V>(s: Seq<(K, V)>, k: K, i: int)
    requires
        keys_unique(s),
        0 <= i < s.len(),
        first_key_index(s, k) == i,
    ensures
        kv_get(s.remove(i), k) is None,
        forall|k2: K| k2 != k ==> kv_get(s.remove(i), k2) == kv_get(s, k2),
{
    let t = s.remove(i);
    lemma_first_key_index_from(s, k, 0);
    assert forall|j: int| 0 <= j < t.len() implies t[j].0 != k by {
        let j0: int = if j < i { j } else { j + 1 };
        assert(t[j] == s[j0]);
        if j0 != i {
            assert(s[j0].0 != s[i].0);
        }
    }
    lemma_first_key_index_from(t, k, 0);
    if first_key_index(t, k) != -1 {
        assert(t[first_key_index(t, k)].0 == k);
    }
    assert forall|k2: K| k2 != k implies kv_get(t, k2) == kv_get(s, k2) by {
        lemma_first_key_index_from(s, k2, 0);
        lemma_first_key_index_from(t, k2, 0);
        let fs = first_key_index(s, k2);
        let ft = first_key_index(t, k2);
        if fs == -1 {
            if ft != -1 {
                let j0: int = if ft < i { ft } else { ft + 1 };
                assert(t[ft] == s[j0]);
                assert(s[j0].0 != k2);
            }
        } else {
            let fs_t: int = if fs < i { fs } else { fs - 1 };
            assert(fs != i);
            assert(t[fs_t] == s[fs]);
            assert(ft != -1) by {
                if ft == -1 {
                    assert(t[fs_t].0 != k2);
                }
            }
            let ft_s: int = if ft < i { ft } else { ft + 1 };
            assert(t[ft] == s[ft_s]);
            assert(s[ft_s].0 == k2);
            if ft_s < fs {
                assert(s[ft_s].0 != k2);
            }
            if fs_t < ft {
                assert(t[fs_t].0 != k2);
            }
            assert(ft_s == fs && ft == fs_t);
        }
    }
}

} // verus!
