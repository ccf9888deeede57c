//! Sequences of records that stand for maps keyed by text.
//!
//! The stores of this crate keep their records in a `Vec` and look them up by
//! a text key; [`keyed`] is the map such a sequence stands for, and the lemmas
//! below relate the `Vec` operations to the map operations they implement.

use vstd::prelude::*;

verus! {

/// The map that a sequence of records stands for: record `r` contributes
/// `val(r)` under `key(r)`; where two records share a key the later one wins.
pub open spec fn keyed<T, V>(
    s: Seq<T>,
    key: spec_fn(T) -> Seq<char>,
    val: spec_fn(T) -> V,
) -> Map<Seq<char>, V>
    decreases s.len(),
{
    if s.len() == 0 {
        Map::empty()
    } else {
        keyed(s.drop_last(), key, val).insert(key(s.last()), val(s.last()))
    }
}

/// No two records of `s` share a key.
pub open spec fn distinct_keys<T>(s: Seq<T>, key: spec_fn(T) -> Seq<char>) -> bool {
    forall|i: int, j: int|
        #![trigger s[i], s[j]]
        0 <= i < s.len() && 0 <= j < s.len() && i != j ==> key(s[i]) != key(s[j])
}

/// Some record of `s` has key `k`.
pub open spec fn has_key<T>(s: Seq<T>, key: spec_fn(T) -> Seq<char>, k: Seq<char>) -> bool {
    exists|i: int| 0 <= i < s.len() && key(#[trigger] s[i]) == k
}

/// A key is in the map exactly when some record carries it.
pub proof fn lemma_keyed_dom<T, V>(
    s: Seq<T>,
    key: spec_fn(T) -> Seq<char>,
    val: spec_fn(T) -> V,
    k: Seq<char>,
)
    ensures
        keyed(s, key, val).dom().contains(k) <==> has_key(s, key, k),
    decreases s.len(),
{
    if s.len() > 0 {
        let p = s.drop_last();
        lemma_keyed_dom(p, key, val, k);
        if has_key(p, key, k) {
            let i = choose|i: int| 0 <= i < p.len() && key(#[trigger] p[i]) == k;
            assert(s[i] == p[i]);
        }
        if has_key(s, key, k) && key(s.last()) != k {
            let i = choose|i: int| 0 <= i < s.len() && key(#[trigger] s[i]) == k;
            assert(i != s.len() - 1);
            assert(p[i] == s[i]);
        }
        if key(s.last()) == k {
            assert(key(s[s.len() - 1]) == k);
        }
    }
}

/// With distinct keys, the map holds each record's value under its key.
pub proof fn lemma_keyed_at<T, V>(
    s: Seq<T>,
    key: spec_fn(T) -> Seq<char>,
    val: spec_fn(T) -> V,
    i: int,
)
    requires
        distinct_keys(s, key),
        0 <= i < s.len(),
    ensures
        keyed(s, key, val).dom().contains(key(s[i])),
        keyed(s, key, val)[key(s[i])] == val(s[i]),
    decreases s.len(),
{
    let p = s.drop_last();
    if i < s.len() - 1 {
        assert(p[i] == s[i]);
        assert(distinct_keys(p, key)) by {
            assert forall|a: int, b: int|
                #![trigger p[a], p[b]]
                0 <= a < p.len() && 0 <= b < p.len() && a != b implies key(p[a]) != key(p[b]) by {
                assert(p[a] == s[a] && p[b] == s[b]);
            }
        }
        lemma_keyed_at(p, key, val, i);
        assert(s[s.len() - 1] == s.last());
    }
}

/// A record's key absent from a sequence with distinct keys is absent from its map.
pub proof fn lemma_keyed_absent<T, V>(
    s: Seq<T>,
    key: spec_fn(T) -> Seq<char>,
    val: spec_fn(T) -> V,
    k: Seq<char>,
)
    requires
        forall|i: int| 0 <= i < s.len() ==> key(#[trigger] s[i]) != k,
    ensures
        !keyed(s, key, val).dom().contains(k),
{
    lemma_keyed_dom(s, key, val, k);
}

/// Every key of the map is carried by a record whose value it maps to.
pub proof fn lemma_keyed_value<T, V>(
    s: Seq<T>,
    key: spec_fn(T) -> Seq<char>,
    val: spec_fn(T) -> V,
    k: Seq<char>,
) -> (i: int)
    requires
        distinct_keys(s, key),
        keyed(s, key, val).dom().contains(k),
    ensures
        0 <= i < s.len(),
        key(s[i]) == k,
        keyed(s, key, val)[k] == val(s[i]),
{
    lemma_keyed_dom(s, key, val, k);
    let i = choose|i: int| 0 <= i < s.len() && key(#[trigger] s[i]) == k;
    lemma_keyed_at(s, key, val, i);
    i
}

/// Appending a record with a fresh key inserts it into the map.
pub proof fn lemma_keyed_push<T, V>(
    s: Seq<T>,
    key: spec_fn(T) -> Seq<char>,
    val: spec_fn(T) -> V,
    x: T,
)
    requires
        distinct_keys(s, key),
        !keyed(s, key, val).dom().contains(key(x)),
    ensures
        distinct_keys(s.push(x), key),
        keyed(s.push(x), key, val) == keyed(s, key, val).insert(key(x), val(x)),
{
    let t = s.push(x);
    assert(t.drop_last() =~= s);
    assert(t.last() == x);
    lemma_keyed_dom(s, key, val, key(x));
    assert forall|a: int, b: int|
        #![trigger t[a], t[b]]
        0 <= a < t.len() && 0 <= b < t.len() && a != b implies key(t[a]) != key(t[b]) by {
        if a == s.len() {
            assert(t[b] == s[b]);
        } else if b == s.len() {
            assert(t[a] == s[a]);
        } else {
            assert(t[a] == s[a] && t[b] == s[b]);
        }
    }
}

/// Removing the record at `i` removes its key from the map.
pub proof fn lemma_keyed_remove<T, V>(
    s: Seq<T>,
    key: spec_fn(T) -> Seq<char>,
    val: spec_fn(T) -> V,
    i: int,
)
    requires
        distinct_keys(s, key),
        0 <= i < s.len(),
    ensures
        distinct_keys(s.remove(i), key),
        keyed(s.remove(i), key, val) == keyed(s, key, val).remove(key(s[i])),
{
    let t = s.remove(i);
    let m = keyed(s, key, val);
    let ki = key(s[i]);
    assert forall|a: int, b: int|
        #![trigger t[a], t[b]]
        0 <= a < t.len() && 0 <= b < t.len() && a != b implies key(t[a]) != key(t[b]) by {
        let sa = if a < i { a } else { a + 1 };
        let sb = if b < i { b } else { b + 1 };
        assert(t[a] == s[sa] && t[b] == s[sb]);
    }
    assert forall|k: Seq<char>|
        #[trigger] keyed(t, key, val).dom().contains(k) <==> m.remove(ki).dom().contains(k) by {
        lemma_keyed_dom(t, key, val, k);
        lemma_keyed_dom(s, key, val, k);
        if has_key(t, key, k) {
            let j = choose|j: int| 0 <= j < t.len() && key(#[trigger] t[j]) == k;
            let sj = if j < i { j } else { j + 1 };
            assert(t[j] == s[sj]);
            assert(s[sj] == s[sj] && s[i] == s[i]);
        }
        if has_key(s, key, k) && k != ki {
            let j = choose|j: int| 0 <= j < s.len() && key(#[trigger] s[j]) == k;
            assert(j != i);
            let tj = if j < i { j } else { j - 1 };
            assert(t[tj] == s[j]);
        }
    }
    assert forall|k: Seq<char>| #[trigger]
        keyed(t, key, val).dom().contains(k) implies keyed(t, key, val)[k] == m.remove(ki)[k] by {
        let j = lemma_keyed_value(t, key, val, k);
        let sj = if j < i { j } else { j + 1 };
        assert(t[j] == s[sj]);
        lemma_keyed_at(s, key, val, sj);
    }
    assert(keyed(t, key, val) =~= m.remove(ki));
}

/// Replacing the record at `i` by one with the same key updates that key.
pub proof fn lemma_keyed_update<T, V>(
    s: Seq<T>,
    key: spec_fn(T) -> Seq<char>,
    val: spec_fn(T) -> V,
    i: int,
    x: T,
)
    requires
        distinct_keys(s, key),
        0 <= i < s.len(),
        key(x) == key(s[i]),
    ensures
        distinct_keys(s.update(i, x), key),
        keyed(s.update(i, x), key, val) == keyed(s, key, val).insert(key(x), val(x)),
{
    let t = s.update(i, x);
    let m = keyed(s, key, val);
    assert forall|a: int, b: int|
        #![trigger t[a], t[b]]
        0 <= a < t.len() && 0 <= b < t.len() && a != b implies key(t[a]) != key(t[b]) by {
        assert(key(t[a]) == key(s[a]) && key(t[b]) == key(s[b]));
    }
    assert forall|k: Seq<char>|
        #[trigger] keyed(t, key, val).dom().contains(k) <==> m.insert(key(x), val(x)).dom().contains(k) by {
        lemma_keyed_dom(t, key, val, k);
        lemma_keyed_dom(s, key, val, k);
        if has_key(t, key, k) {
            let j = choose|j: int| 0 <= j < t.len() && key(#[trigger] t[j]) == k;
            assert(key(t[j]) == key(s[j]));
        }
        if has_key(s, key, k) {
            let j = choose|j: int| 0 <= j < s.len() && key(#[trigger] s[j]) == k;
            assert(key(t[j]) == key(s[j]));
        }
        if k == key(x) {
            assert(key(t[i]) == k);
        }
    }
    assert forall|k: Seq<char>| #[trigger]
        keyed(t, key, val).dom().contains(k) implies keyed(t, key, val)[k] == m.insert(
        key(x),
        val(x),
    )[k] by {
        let j = lemma_keyed_value(t, key, val, k);
        if j != i {
            assert(t[j] == s[j]);
            lemma_keyed_at(s, key, val, j);
        }
    }
    assert(keyed(t, key, val) =~= m.insert(key(x), val(x)));
}

} // verus!
