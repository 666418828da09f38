//! Sequences of records addressed by a key: the model of the in-memory
//! stores, where saving a record replaces the one stored under its key.
use vstd::prelude::*;

verus! {

/// The index of the last record of `s` whose key is `k`, or `-1`.
pub open spec fn last_index_of<T, K>(s: Seq<T>, key: spec_fn(T) -> K, k: K) -> int
    decreases s.len(),
{
    if s.len() == 0 {
        -1
    } else if key(s.last()) == k {
        s.len() - 1
    } else {
        last_index_of(s.drop_last(), key, k)
    }
}

/// The record stored under `k`, if any.
pub open spec fn lookup<T, K>(s: Seq<T>, key: spec_fn(T) -> K, k: K) -> Option<T> {
    let i = last_index_of(s, key, k);
    if i < 0 {
        None
    } else {
        Some(s[i])
    }
}

/// `s` after saving `x`: it replaces the record stored under its key, or is
/// appended when there is none.
pub open spec fn upsert<T, K>(s: Seq<T>, key: spec_fn(T) -> K, x: T) -> Seq<T> {
    let i = last_index_of(s, key, key(x));
    if i < 0 {
        s.push(x)
    } else {
        s.update(i, x)
    }
}

/// No two records of `s` share a key.
pub open spec fn keys_unique<T, K>(s: Seq<T>, key: spec_fn(T) -> K) -> bool {
    forall|i: int, j: int| 0 <= i < j < s.len() ==> key(#[trigger] s[i]) != key(#[trigger] s[j])
}

/// Where `last_index_of` points.
pub proof fn lemma_last_index_of<T, K>(s: Seq<T>, key: spec_fn(T) -> K, k: K)
    ensures
        -1 <= last_index_of(s, key, k) < s.len(),
        last_index_of(s, key, k) >= 0 ==> key(s[last_index_of(s, key, k)]) == k,
        forall|j: int|
            last_index_of(s, key, k) < j < s.len() ==> key(#[trigger] s[j]) != k,
    decreases s.len(),
{
    if s.len() > 0 && key(s.last()) != k {
        lemma_last_index_of(s.drop_last(), key, k);
        assert forall|j: int| last_index_of(s, key, k) < j < s.len() implies key(
            #[trigger] s[j],
        ) != k by {
            if j < s.len() - 1 {
                assert(s[j] == s.drop_last()[j]);
            }
        }
    }
}

/// Replacing a record whose key is not `k` by another whose key is not `k`
/// leaves the position of `k` unchanged.
pub proof fn lemma_last_index_of_other<T, K>(s: Seq<T>, key: spec_fn(T) -> K, k: K, i: int, x: T)
    requires
        0 <= i < s.len(),
        key(s[i]) != k,
        key(x) != k,
    ensures
        last_index_of(s.update(i, x), key, k) == last_index_of(s, key, k),
    decreases s.len(),
{
    let t = s.update(i, x);
    if i < s.len() - 1 {
        assert(t.last() == s.last());
        if key(s.last()) != k {
            assert(t.drop_last() =~= s.drop_last().update(i, x));
            lemma_last_index_of_other(s.drop_last(), key, k, i, x);
        }
    } else {
        assert(t.drop_last() =~= s.drop_last());
    }
}

/// What a lookup gives after a save: the saved record under its own key,
/// and what it gave before under every other key.
pub proof fn lemma_lookup_upsert<T, K>(s: Seq<T>, key: spec_fn(T) -> K, x: T, k: K)
    ensures
        lookup(upsert(s, key, x), key, k) == (if k == key(x) {
            Some(x)
        } else {
            lookup(s, key, k)
        }),
{
    let i = last_index_of(s, key, key(x));
    lemma_last_index_of(s, key, key(x));
    lemma_last_index_of(s, key, k);
    let t = upsert(s, key, x);
    if i < 0 {
        assert(t.drop_last() =~= s);
    } else {
        if k == key(x) {
            lemma_last_index_of(t, key, k);
            lemma_upsert_position(s, key, x, i);
        } else {
            lemma_last_index_of_other(s, key, k, i, x);
        }
    }
}

proof fn lemma_upsert_position<T, K>(s: Seq<T>, key: spec_fn(T) -> K, x: T, i: int)
    requires
        0 <= i < s.len(),
        key(s[i]) == key(x),
        forall|j: int| i < j < s.len() ==> key(#[trigger] s[j]) != key(x),
    ensures
        last_index_of(s.update(i, x), key, key(x)) == i,
    decreases s.len(),
{
    let t = s.update(i, x);
    if i < s.len() - 1 {
        assert(key(s[s.len() - 1]) != key(x));
        assert(t.drop_last() =~= s.drop_last().update(i, x));
        assert forall|j: int| i < j < s.drop_last().len() implies key(
            #[trigger] s.drop_last()[j],
        ) != key(x) by {
            assert(s.drop_last()[j] == s[j]);
        }
        lemma_upsert_position(s.drop_last(), key, x, i);
    }
}

/// Saving keeps the keys unique.
pub proof fn lemma_upsert_unique<T, K>(s: Seq<T>, key: spec_fn(T) -> K, x: T)
    requires
        keys_unique(s, key),
    ensures
        keys_unique(upsert(s, key, x), key),
{
    lemma_last_index_of(s, key, key(x));
    let i = last_index_of(s, key, key(x));
    let t = upsert(s, key, x);
    if i < 0 {
        assert forall|a: int, b: int| 0 <= a < b < t.len() implies key(#[trigger] t[a]) != key(
            #[trigger] t[b],
        ) by {
            if b == s.len() {
                assert(t[a] == s[a]);
            } else {
                assert(t[a] == s[a] && t[b] == s[b]);
            }
        }
    } else {
        assert forall|a: int, b: int| 0 <= a < b < t.len() implies key(#[trigger] t[a]) != key(
            #[trigger] t[b],
        ) by {
            if a == i {
                assert(key(s[i]) != key(s[b]));
            } else if b == i {
                assert(key(s[a]) != key(s[i]));
            } else {
                assert(t[a] == s[a] && t[b] == s[b]);
            }
        }
    }
}

} // verus!
