//! A map from strings to strings that keeps its entries in the order in
//! which their keys were first inserted.
//!
//! It holds header fields, query parameters and path parameters. Its view is
//! the sequence of its entries; `lookup` reads such a sequence as a map, for
//! keys of any type.

use vstd::prelude::*;

verus! {

/// The index of the first entry of `pairs` with the key `key`, or
/// `pairs.len()` when there is none.
pub open spec fn position<K, V>(pairs: Seq<(K, V)>, key: K) -> int
    decreases pairs.len(),
{
    if pairs.len() == 0 {
        0
    } else if pairs[0].0 == key {
        0
    } else {
        1 + position(pairs.skip(1), key)
    }
}

/// Whether an entry of `pairs` has the key `key`.
pub open spec fn has_key<K, V>(pairs: Seq<(K, V)>, key: K) -> bool {
    position(pairs, key) < pairs.len()
}

/// The value of the first entry of `pairs` with the key `key`.
pub open spec fn lookup<K, V>(pairs: Seq<(K, V)>, key: K) -> Option<V> {
    if has_key(pairs, key) {
        Some(pairs[position(pairs, key)].1)
    } else {
        None
    }
}

/// `pairs` with `key` bound to `value`: in the place of the entry that had
/// the key, or at the end where none had it.
pub open spec fn put<K, V>(pairs: Seq<(K, V)>, key: K, value: V) -> Seq<
    (K, V),
> {
    if has_key(pairs, key) {
        pairs.update(position(pairs, key), (key, value))
    } else {
        pairs.push((key, value))
    }
}

/// `base` with every entry of `more` put into it, from the first to the last.
pub open spec fn put_all<K, V>(base: Seq<(K, V)>, more: Seq<(K, V)>) -> Seq<
    (K, V),
>
    decreases more.len(),
{
    if more.len() == 0 {
        base
    } else {
        put(put_all(base, more.drop_last()), more.last().0, more.last().1)
    }
}

/// No two entries of `pairs` have the same key.
pub open spec fn distinct_keys<K, V>(pairs: Seq<(K, V)>) -> bool {
    forall|i: int, j: int|
        0 <= i < j < pairs.len() ==> (#[trigger] pairs[i]).0 != (#[trigger] pairs[j]).0
}

/// `position` is in range, points at an entry with the key if it is an
/// index, and no earlier entry has the key.
pub proof fn lemma_position<K, V>(pairs: Seq<(K, V)>, key: K)
    ensures
        0 <= position(pairs, key) <= pairs.len(),
        position(pairs, key) < pairs.len() ==> pairs[position(pairs, key)].0 == key,
        forall|j: int| 0 <= j < position(pairs, key) ==> (#[trigger] pairs[j]).0 != key,
    decreases pairs.len(),
{
    if pairs.len() > 0 && pairs[0].0 != key {
        let rest = pairs.skip(1);
        lemma_position(rest, key);
        assert forall|j: int| 0 <= j < position(pairs, key) implies (#[trigger] pairs[j]).0
            != key by {
            if j > 0 {
                assert(pairs[j] == rest[j - 1]);
            }
        }
    }
}

/// The index that meets the three conditions of `lemma_position` is
/// `position`.
pub proof fn lemma_position_is<K, V>(pairs: Seq<(K, V)>, key: K, i: int)
    requires
        0 <= i <= pairs.len(),
        i < pairs.len() ==> pairs[i].0 == key,
        forall|j: int| 0 <= j < i ==> (#[trigger] pairs[j]).0 != key,
    ensures
        position(pairs, key) == i,
{
    lemma_position(pairs, key);
    let k = position(pairs, key);
    if k < i {
        assert(pairs[k].0 == key);
    } else if i < k {
        assert(pairs[i].0 != key);
    }
}

/// A key that was put is found with the value that was put; every other key
/// is found as before; and distinct keys stay distinct.
pub proof fn lemma_put<K, V>(pairs: Seq<(K, V)>, key: K, value: V, other: K)
    ensures
        lookup(put(pairs, key, value), key) == Some(value),
        other != key ==> lookup(put(pairs, key, value), other) == lookup(pairs, other),
        distinct_keys(pairs) ==> distinct_keys(put(pairs, key, value)),
        has_key(pairs, key) ==> put(pairs, key, value).len() == pairs.len(),
        !has_key(pairs, key) ==> put(pairs, key, value).len() == pairs.len() + 1,
{
    let after = put(pairs, key, value);
    let i = position(pairs, key);
    lemma_position(pairs, key);
    lemma_position_is(after, key, i);
    if other != key {
        let k = position(pairs, other);
        lemma_position(pairs, other);
        if k < pairs.len() {
            assert(after[k] == pairs[k]);
            assert forall|j: int| 0 <= j < k implies (#[trigger] after[j]).0 != other by {
                if j != i {
                    assert(after[j] == pairs[j]);
                }
            }
            lemma_position_is(after, other, k);
        } else {
            assert forall|j: int| 0 <= j < after.len() implies (#[trigger] after[j]).0
                != other by {
                if j != i {
                    assert(after[j] == pairs[j]);
                }
            }
            lemma_position_is(after, other, after.len() as int);
        }
    }
    if distinct_keys(pairs) {
        assert forall|a: int, b: int| 0 <= a < b < after.len() implies (#[trigger] after[a]).0 != (
        #[trigger] after[b]).0 by {
            if a != i && a < pairs.len() {
                assert(after[a] == pairs[a]);
            }
            if b != i && b < pairs.len() {
                assert(after[b] == pairs[b]);
            }
            if i < pairs.len() {
                assert(pairs[i].0 == key);
            }
        }
    }
}

/// A map from strings to strings, in the order of first insertion.
#[derive(Debug)]
pub struct StringMap {
    entries: Vec<(String, String)>,
}

impl View for StringMap {
    type V = Seq<(Seq<char>, Seq<char>)>;

    closed spec fn view(&self) -> Seq<(Seq<char>, Seq<char>)> {
        Seq::new(self.entries@.len(), |i: int| (self.entries@[i].0@, self.entries@[i].1@))
    }
}

impl StringMap {
    /// What is kept under `key`.
    pub open spec fn at(&self, key: Seq<char>) -> Option<Seq<char>> {
        lookup(self@, key)
    }

    /// The empty map.
    pub fn new() -> (m: StringMap)
        ensures
            m@ == Seq::<(Seq<char>, Seq<char>)>::empty(),
    {
        let m = StringMap { entries: Vec::new() };
        assert(m@ =~= Seq::<(Seq<char>, Seq<char>)>::empty());
        m
    }

    /// The number of entries.
    pub fn len(&self) -> (n: usize)
        ensures
            n == self@.len(),
    {
        self.entries.len()
    }

    /// Whether the map has no entry.
    pub fn is_empty(&self) -> (b: bool)
        ensures
            b == (self@.len() == 0),
    {
        self.entries.len() == 0
    }

    /// The key of the entry at index `i`.
    pub fn key_at(&self, i: usize) -> (k: &String)
        requires
            i < self@.len(),
        ensures
            k@ == self@[i as int].0,
    {
        &self.entries[i].0
    }

    /// The value of the entry at index `i`.
    pub fn value_at(&self, i: usize) -> (v: &String)
        requires
            i < self@.len(),
        ensures
            v@ == self@[i as int].1,
    {
        &self.entries[i].1
    }

    fn find(&self, key: &String) -> (i: usize)
        ensures
            i == position(self@, key@),
            i <= self@.len(),
    {
        let mut i: usize = 0;
        while i < self.entries.len() && !(self.entries[i].0 == *key)
            invariant
                i <= self.entries@.len(),
                forall|j: int| 0 <= j < i ==> (#[trigger] self@[j]).0 != key@,
            decreases self.entries@.len() - i,
        {
            i = i + 1;
        }
        proof {
            lemma_position_is(self@, key@, i as int);
        }
        i
    }

    /// Whether an entry has the key `key`.
    pub fn contains_key(&self, key: &str) -> (b: bool)
        ensures
            b == has_key(self@, key@),
    {
        let owned = key.to_owned();
        self.find(&owned) < self.entries.len()
    }

    /// The value kept under `key`.
    pub fn get(&self, key: &str) -> (r: Option<&String>)
        ensures
            match r {
                Some(v) => self.at(key@) == Some(v@),
                None => self.at(key@).is_none(),
            },
    {
        let owned = key.to_owned();
        let i = self.find(&owned);
        if i < self.entries.len() {
            Some(&self.entries[i].1)
        } else {
            None
        }
    }

    /// Binds `key` to `value`. An entry that had the key keeps its place and
    /// gets the new value; a new key goes to the end.
    pub fn insert(&mut self, key: String, value: String)
        ensures
            final(self)@ == put(old(self)@, key@, value@),
            distinct_keys(old(self)@) ==> distinct_keys(final(self)@),
    {
        proof {
            lemma_put(self@, key@, value@, key@);
        }
        let i = self.find(&key);
        if i < self.entries.len() {
            self.entries.set(i, (key, value));
        } else {
            self.entries.push((key, value));
        }
        assert(self@ =~= put(old(self)@, key@, value@));
    }

    /// Puts every entry of `other` into the map, from the first to the last.
    pub fn extend(&mut self, other: StringMap)
        ensures
            final(self)@ == put_all(old(self)@, other@),
    {
        let mut i: usize = 0;
        let n: usize = other.len();
        while i < n
            invariant
                n == other@.len(),
                i <= n,
                self@ == put_all(old(self)@, other@.take(i as int)),
            decreases n - i,
        {
            let key = other.key_at(i).clone();
            let value = other.value_at(i).clone();
            proof {
                assert(other@.take(i + 1).drop_last() =~= other@.take(i as int));
            }
            self.insert(key, value);
            i = i + 1;
        }
        assert(other@.take(n as int) =~= other@);
    }

    /// A map with the same entries in the same order.
    pub fn duplicate(&self) -> (m: StringMap)
        ensures
            m@ == self@,
    {
        let mut entries: Vec<(String, String)> = Vec::new();
        let mut i: usize = 0;
        while i < self.entries.len()
            invariant
                i <= self.entries@.len(),
                entries@.len() == i,
                forall|j: int|
                    0 <= j < i ==> (#[trigger] entries@[j]).0@ == self.entries@[j].0@
                        && entries@[j].1@ == self.entries@[j].1@,
            decreases self.entries@.len() - i,
        {
            entries.push((self.entries[i].0.clone(), self.entries[i].1.clone()));
            i = i + 1;
        }
        let ghost target = self@;
        let m = StringMap { entries };
        assert(m@ =~= target);
        m
    }
}

} // verus!
