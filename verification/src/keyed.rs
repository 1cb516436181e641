//! Ordered key/value sequences with distinct keys: the mathematical model
//! shared by manifest sections, their entries and an entry's properties.

use vstd::prelude::*;

verus! {

/// A key as the contracts see it: the characters of a string.
pub type Key = Seq<char>;

/// The properties of one manifest entry, in the order of the document: each
/// key with its string value, `None` where the document holds another kind of
/// value there.
pub type Props = Seq<(Key, Option<Seq<char>>)>;

/// The entries of one manifest section, in the order of the document: each
/// package name with its properties.
pub type Entries = Seq<(Key, Props)>;

/// The sections of a manifest, in the order of the document: each backend
/// name with its entries, `None` where the document holds something other
/// than a table there.
pub type Sections = Seq<(Key, Option<Entries>)>;

/// Holds when `key` occurs among the keys of `s`.
pub open spec fn has_key<V>(s: Seq<(Key, V)>, key: Key) -> bool {
    exists|i: int| 0 <= i < s.len() && (#[trigger] s[i]).0 == key
}

/// No key occurs at two positions of `s`.
pub open spec fn keys_distinct<V>(s: Seq<(Key, V)>) -> bool {
    forall|i: int, j: int|
        0 <= i < s.len() && 0 <= j < s.len() && (#[trigger] s[i]).0 == (#[trigger] s[j]).0 ==> i
            == j
}

/// A position at which `key` occurs in `s`; meaningful where `has_key` holds.
pub open spec fn index_of<V>(s: Seq<(Key, V)>, key: Key) -> int {
    choose|i: int| 0 <= i < s.len() && (#[trigger] s[i]).0 == key
}

/// The value stored under `key`, if any.
pub open spec fn lookup<V>(s: Seq<(Key, V)>, key: Key) -> Option<V> {
    if has_key(s, key) {
        Some(s[index_of(s, key)].1)
    } else {
        None
    }
}

/// `s` with every pair under `key` left out, the others in their order.
pub open spec fn without<V>(s: Seq<(Key, V)>, key: Key) -> Seq<(Key, V)>
    decreases s.len(),
{
    if s.len() == 0 {
        s
    } else if s.last().0 == key {
        without(s.drop_last(), key)
    } else {
        without(s.drop_last(), key).push(s.last())
    }
}

/// `after` is `before` with `value` stored under `key`: the key is present
/// with that value, keeps its place if it was present, and every other pair
/// stays as it was and in the same order.
pub open spec fn is_put<V>(before: Seq<(Key, V)>, after: Seq<(Key, V)>, key: Key, value: V) -> bool {
    &&& keys_distinct(after)
    &&& lookup(after, key) == Some(value)
    &&& without(after, key) == without(before, key)
    &&& has_key(before, key) ==> index_of(after, key) == index_of(before, key)
}

/// `s` with `value` stored under `key`: in place where the key is present,
/// at the end where it is not.
pub open spec fn put<V>(s: Seq<(Key, V)>, key: Key, value: V) -> Seq<(Key, V)> {
    if has_key(s, key) {
        s.update(index_of(s, key), (key, value))
    } else {
        s.push((key, value))
    }
}

/// Leaving a key out keeps only pairs that were there, none of them under
/// that key, and every pair under another key.
pub proof fn lemma_without_members<V>(s: Seq<(Key, V)>, key: Key)
    ensures
        without(s, key).len() <= s.len(),
        !has_key(without(s, key), key),
        forall|i: int|
            0 <= i < without(s, key).len() ==> s.contains(#[trigger] without(s, key)[i]),
        forall|i: int|
            0 <= i < s.len() && (#[trigger] s[i]).0 != key ==> without(s, key).contains(s[i]),
    decreases s.len(),
{
    if s.len() > 0 {
        let t = s.drop_last();
        lemma_without_members(t, key);
        let w = without(s, key);
        assert forall|i: int| 0 <= i < w.len() implies s.contains(#[trigger] w[i]) by {
            if i < without(t, key).len() {
                let e = without(t, key)[i];
                assert(t.contains(e));
                let k = choose|k: int| 0 <= k < t.len() && t[k] == e;
                assert(s[k] == e);
            } else {
                assert(w[i] == s[s.len() - 1]);
            }
        }
        assert forall|i: int| 0 <= i < s.len() && (#[trigger] s[i]).0 != key implies w.contains(
            s[i],
        ) by {
            if i < t.len() {
                assert(t[i] == s[i]);
                assert(without(t, key).contains(t[i]));
                let k = choose|k: int| 0 <= k < without(t, key).len() && without(t, key)[k] == t[i];
                assert(w[k] == s[i]);
            } else {
                assert(w[w.len() - 1] == s[i]);
            }
        }
        if has_key(w, key) {
            let i = index_of(w, key);
            assert(s.contains(w[i]));
            if i < without(t, key).len() {
                assert(without(t, key)[i].0 == key);
            }
        }
    }
}

/// Leaving a key out distributes over concatenation.
pub proof fn lemma_without_concat<V>(a: Seq<(Key, V)>, b: Seq<(Key, V)>, key: Key)
    ensures
        without(a + b, key) == without(a, key) + without(b, key),
    decreases b.len(),
{
    if b.len() == 0 {
        assert(a + b == a);
        assert(without(a, key) + without(b, key) == without(a, key));
    } else {
        let t = b.drop_last();
        lemma_without_concat(a, t, key);
        assert((a + b).drop_last() == a + t);
        assert((a + b).last() == b.last());
        if b.last().0 != key {
            assert((without(a, key) + without(t, key)).push(b.last()) == without(a, key)
                + without(t, key).push(b.last()));
        }
    }
}

/// With distinct keys, the pair at a position is the one found under its key.
pub proof fn lemma_lookup_at<V>(s: Seq<(Key, V)>, i: int)
    requires
        keys_distinct(s),
        0 <= i < s.len(),
    ensures
        has_key(s, s[i].0),
        index_of(s, s[i].0) == i,
        lookup(s, s[i].0) == Some(s[i].1),
{
    assert(has_key(s, s[i].0));
}

/// Storing a value under a key of a sequence with distinct keys gives a
/// sequence that `is_put` accepts.
pub proof fn lemma_put_is_put<V>(s: Seq<(Key, V)>, key: Key, value: V)
    requires
        keys_distinct(s),
    ensures
        keys_distinct(put(s, key, value)),
        is_put(s, put(s, key, value), key, value),
{
    let p = put(s, key, value);
    if has_key(s, key) {
        let i = index_of(s, key);
        assert(p[i] == (key, value));
        assert forall|a: int, b: int|
            0 <= a < p.len() && 0 <= b < p.len() && (#[trigger] p[a]).0 == (#[trigger] p[b]).0 implies a
            == b by {
            assert(p[a].0 == s[a].0);
            assert(p[b].0 == s[b].0);
        }
        lemma_lookup_at(p, i);
        let left = s.subrange(0, i);
        let right = s.subrange(i + 1, s.len() as int);
        assert(s == left + seq![s[i]] + right);
        assert(p == left + seq![(key, value)] + right);
        lemma_without_concat(left + seq![s[i]], right, key);
        lemma_without_concat(left, seq![s[i]], key);
        lemma_without_concat(left + seq![(key, value)], right, key);
        lemma_without_concat(left, seq![(key, value)], key);
        lemma_without_single(s[i], key);
        lemma_without_single((key, value), key);
    } else {
        let i = s.len() as int;
        assert(p[i] == (key, value));
        assert forall|a: int, b: int|
            0 <= a < p.len() && 0 <= b < p.len() && (#[trigger] p[a]).0 == (#[trigger] p[b]).0 implies a
            == b by {
            if a < s.len() {
                assert(p[a] == s[a]);
            }
            if b < s.len() {
                assert(p[b] == s[b]);
            }
        }
        lemma_lookup_at(p, i);
        assert(p.drop_last() == s);
    }
}

/// Leaving a key out does not change what is found under another key.
pub proof fn lemma_lookup_without<V>(s: Seq<(Key, V)>, key: Key, other: Key)
    requires
        keys_distinct(s),
        other != key,
    ensures
        lookup(without(s, key), other) == lookup(s, other),
{
    let w = without(s, key);
    lemma_without_members(s, key);
    if has_key(w, other) {
        let j = index_of(w, other);
        assert(s.contains(w[j]));
        let i = choose|i: int| 0 <= i < s.len() && s[i] == w[j];
        assert(s[i].0 == other);
        lemma_lookup_at(s, i);
    } else if has_key(s, other) {
        let i = index_of(s, other);
        assert(w.contains(s[i]));
        let j = choose|j: int| 0 <= j < w.len() && w[j] == s[i];
        assert(w[j].0 == other);
    }
}

/// Storing a value under a key does not change what is found under another
/// key.
pub proof fn lemma_is_put_others<V>(
    before: Seq<(Key, V)>,
    after: Seq<(Key, V)>,
    key: Key,
    value: V,
    other: Key,
)
    requires
        is_put(before, after, key, value),
        keys_distinct(before),
        other != key,
    ensures
        lookup(after, other) == lookup(before, other),
{
    lemma_lookup_without(before, key, other);
    lemma_lookup_without(after, key, other);
}

/// A single pair is left out exactly when it stands under the key.
pub proof fn lemma_without_single<V>(pair: (Key, V), key: Key)
    ensures
        without(seq![pair], key) == if pair.0 == key {
            Seq::<(Key, V)>::empty()
        } else {
            seq![pair]
        },
{
    let s = seq![pair];
    assert(s.drop_last() == Seq::<(Key, V)>::empty());
    assert(without(s.drop_last(), key) == Seq::<(Key, V)>::empty());
    assert(s.last() == pair);
    if pair.0 != key {
        assert(Seq::<(Key, V)>::empty().push(pair) == s);
    }
}

} // verus!
