use vstd::prelude::*;
use crate::ident::Key;

verus! {

/// Whether some entry of `s` has the key `k`.
pub open spec fn has_key<K, V>(s: Seq<(K, V)>, k: K) -> bool {
    exists|i: int| 0 <= i < s.len() && (#[trigger] s[i]).0 == k
}

/// The position of an entry of `s` with the key `k`, where there is one.
pub open spec fn slot<K, V>(s: Seq<(K, V)>, k: K) -> int {
    choose|i: int| 0 <= i < s.len() && (#[trigger] s[i]).0 == k
}

/// No key occurs in two entries of `s`.
pub open spec fn distinct_keys<K, V>(s: Seq<(K, V)>) -> bool {
    forall|i: int, j: int| 0 <= i < j < s.len() ==> (#[trigger] s[i]).0 != (#[trigger] s[j]).0
}

/// `s` with the value of `k` replaced by `v` where `k` is present, and with
/// `(k, v)` added at the end where it is not.
pub open spec fn upsert<K, V>(s: Seq<(K, V)>, k: K, v: V) -> Seq<(K, V)> {
    if has_key(s, k) {
        s.update(slot(s, k), (k, v))
    } else {
        s.push((k, v))
    }
}

/// `s` without its entry for `k`; the other entries keep their order.
pub open spec fn without<K, V>(s: Seq<(K, V)>, k: K) -> Seq<(K, V)> {
    if has_key(s, k) {
        s.remove(slot(s, k))
    } else {
        s
    }
}

/// The value that `s` holds for `k`, where it holds one.
pub open spec fn lookup<K, V>(s: Seq<(K, V)>, k: K) -> Option<V> {
    if has_key(s, k) {
        Some(s[slot(s, k)].1)
    } else {
        None
    }
}

/// The map that the entries of `s` make up.
pub open spec fn to_map<K, V>(s: Seq<(K, V)>) -> Map<K, V> {
    Map::new(|k: K| has_key(s, k), |k: K| s[slot(s, k)].1)
}

/// Adding an entry under a new key adds it to the map.
pub proof fn lemma_to_map_push<K, V>(s: Seq<(K, V)>, k: K, v: V)
    requires
        distinct_keys(s),
        !has_key(s, k),
    ensures
        distinct_keys(s.push((k, v))),
        to_map(s.push((k, v))) == to_map(s).insert(k, v),
{
    let t = s.push((k, v));
    assert forall|a: int, b: int| 0 <= a < b < t.len() implies (#[trigger] t[a]).0 != (
    #[trigger] t[b]).0 by {
        if b < s.len() {
            assert(s[a].0 != s[b].0);
        } else {
            assert(s[a].0 != k);
        }
    }
    assert(t[s.len() as int].0 == k);
    lemma_slot(t, k, s.len() as int);
    assert forall|other: K| other != k implies has_key(t, other) == has_key(s, other) && (has_key(
        s,
        other,
    ) ==> t[slot(t, other)].1 == s[slot(s, other)].1) by {
        if has_key(s, other) {
            let j = slot(s, other);
            assert(t[j].0 == other);
            lemma_slot(t, other, j);
        }
        if has_key(t, other) {
            let j = slot(t, other);
            assert(s[j].0 == other);
        }
    }
    assert(to_map(t) =~= to_map(s).insert(k, v));
}

/// Taking the entry at a position out takes its key out of the map.
pub proof fn lemma_to_map_remove<K, V>(s: Seq<(K, V)>, i: int)
    requires
        distinct_keys(s),
        0 <= i < s.len(),
    ensures
        distinct_keys(s.remove(i)),
        to_map(s.remove(i)) == to_map(s).remove(s[i].0),
{
    let k = s[i].0;
    lemma_slot(s, k, i);
    assert(s.remove(i) == without(s, k));
    lemma_without_distinct(s, k);
    let t = s.remove(i);
    assert forall|other: K| other != k && has_key(s, other) implies t[slot(t, other)].1 == s[slot(
        s,
        other,
    )].1 by {
        assert(lookup(t, other) == lookup(s, other));
    }
    assert(to_map(t) =~= to_map(s).remove(k));
}

/// The entries of `s` with each value replaced by what `f` makes of it.
pub open spec fn mapped<K, V, W>(s: Seq<(K, V)>, f: spec_fn(V) -> W) -> Seq<(K, W)> {
    s.map_values(|e: (K, V)| (e.0, f(e.1)))
}

/// Where no key occurs twice, the entry that holds a key is the one that
/// `slot` names.
pub proof fn lemma_slot<K, V>(s: Seq<(K, V)>, k: K, i: int)
    requires
        distinct_keys(s),
        0 <= i < s.len(),
        s[i].0 == k,
    ensures
        has_key(s, k),
        slot(s, k) == i,
{
    let j = slot(s, k);
    assert(0 <= j < s.len() && s[j].0 == k);
    if j < i {
        assert(s[j].0 != s[i].0);
    } else if i < j {
        assert(s[i].0 != s[j].0);
    }
}

/// Replacing or adding a value keeps the keys apart.
pub proof fn lemma_upsert_distinct<K, V>(s: Seq<(K, V)>, k: K, v: V)
    requires
        distinct_keys(s),
    ensures
        distinct_keys(upsert(s, k, v)),
        has_key(upsert(s, k, v), k),
        lookup(upsert(s, k, v), k) == Some(v),
        forall|other: K| other != k ==> has_key(upsert(s, k, v), other) == has_key(s, other),
        forall|other: K| other != k ==> lookup(upsert(s, k, v), other) == lookup(s, other),
{
    let t = upsert(s, k, v);
    if has_key(s, k) {
        let i = slot(s, k);
        assert(t[i].0 == k);
        assert forall|a: int, b: int| 0 <= a < b < t.len() implies (#[trigger] t[a]).0 != (
        #[trigger] t[b]).0 by {
            assert(s[a].0 != s[b].0);
        }
        lemma_slot(t, k, i);
        assert forall|other: K| other != k implies has_key(t, other) == has_key(s, other)
            && lookup(t, other) == lookup(s, other) by {
            if has_key(s, other) {
                let j = slot(s, other);
                assert(t[j].0 == other);
                lemma_slot(t, other, j);
            }
            if has_key(t, other) {
                let j = slot(t, other);
                assert(s[j].0 == other);
                lemma_slot(s, other, j);
            }
        }
    } else {
        let i = s.len() as int;
        assert(t[i].0 == k);
        assert forall|a: int, b: int| 0 <= a < b < t.len() implies (#[trigger] t[a]).0 != (
        #[trigger] t[b]).0 by {
            if b < s.len() {
                assert(s[a].0 != s[b].0);
            } else {
                assert(s[a].0 != k);
            }
        }
        lemma_slot(t, k, i);
        assert forall|other: K| other != k implies has_key(t, other) == has_key(s, other)
            && lookup(t, other) == lookup(s, other) by {
            if has_key(s, other) {
                let j = slot(s, other);
                assert(t[j].0 == other);
                lemma_slot(t, other, j);
            }
            if has_key(t, other) {
                let j = slot(t, other);
                assert(s[j].0 == other);
                lemma_slot(s, other, j);
            }
        }
    }
}

/// Taking a key out keeps the other keys apart and in place.
pub proof fn lemma_without_distinct<K, V>(s: Seq<(K, V)>, k: K)
    requires
        distinct_keys(s),
    ensures
        distinct_keys(without(s, k)),
        !has_key(without(s, k), k),
        forall|other: K| other != k ==> has_key(without(s, k), other) == has_key(s, other),
        forall|other: K| other != k ==> lookup(without(s, k), other) == lookup(s, other),
{
    let t = without(s, k);
    if has_key(s, k) {
        let i = slot(s, k);
        assert forall|a: int, b: int| 0 <= a < b < t.len() implies (#[trigger] t[a]).0 != (
        #[trigger] t[b]).0 by {
            let a0 = if a < i { a } else { a + 1 };
            let b0 = if b < i { b } else { b + 1 };
            assert(s[a0].0 != s[b0].0);
        }
        if has_key(t, k) {
            let j = slot(t, k);
            let j0 = if j < i { j } else { j + 1 };
            assert(s[j0].0 == k);
            lemma_slot(s, k, j0);
        }
        assert forall|other: K| other != k implies has_key(t, other) == has_key(s, other)
            && lookup(t, other) == lookup(s, other) by {
            if has_key(s, other) {
                let j = slot(s, other);
                let j1 = if j < i { j } else { j - 1 };
                assert(t[j1].0 == other);
                lemma_slot(t, other, j1);
            }
            if has_key(t, other) {
                let j = slot(t, other);
                let j0 = if j < i { j } else { j + 1 };
                assert(s[j0].0 == other);
                lemma_slot(s, other, j0);
            }
        }
    }
}

/// Looking at every value through `f` keeps the keys apart and in place.
pub proof fn lemma_mapped_distinct<K, V, W>(s: Seq<(K, V)>, f: spec_fn(V) -> W)
    requires
        distinct_keys(s),
    ensures
        distinct_keys(mapped(s, f)),
        forall|k: K| has_key(mapped(s, f), k) == has_key(s, k),
        forall|k: K| has_key(s, k) ==> slot(mapped(s, f), k) == slot(s, k),
{
    let m = mapped(s, f);
    assert forall|a: int, b: int| 0 <= a < b < m.len() implies (#[trigger] m[a]).0 != (
    #[trigger] m[b]).0 by {
        assert(s[a].0 != s[b].0);
    }
    assert forall|k: K| has_key(m, k) == has_key(s, k) && (has_key(s, k) ==> slot(m, k) == slot(
        s,
        k,
    )) by {
        if has_key(s, k) {
            let i = slot(s, k);
            assert(m[i].0 == k);
            lemma_slot(m, k, i);
        }
        if has_key(m, k) {
            let i = slot(m, k);
            assert(s[i].0 == k);
        }
    }
}

/// Replacing a value and then looking at every value through `f` gives what
/// replacing the value seen through `f` gives.
pub proof fn lemma_upsert_mapped<K, V, W>(s: Seq<(K, V)>, k: K, v: V, f: spec_fn(V) -> W)
    requires
        distinct_keys(s),
    ensures
        distinct_keys(mapped(s, f)),
        mapped(upsert(s, k, v), f) == upsert(mapped(s, f), k, f(v)),
{
    let m = mapped(s, f);
    assert forall|a: int, b: int| 0 <= a < b < m.len() implies (#[trigger] m[a]).0 != (
    #[trigger] m[b]).0 by {
        assert(s[a].0 != s[b].0);
    }
    if has_key(s, k) {
        let i = slot(s, k);
        assert(m[i].0 == k);
        lemma_slot(m, k, i);
    } else {
        if has_key(m, k) {
            let j = slot(m, k);
            assert(s[j].0 == k);
        }
    }
    assert(mapped(upsert(s, k, v), f) =~= upsert(m, k, f(v)));
}

/// Taking a key out and then looking at every value through `f` gives what
/// taking the key out of the values seen through `f` gives.
pub proof fn lemma_without_mapped<K, V, W>(s: Seq<(K, V)>, k: K, f: spec_fn(V) -> W)
    requires
        distinct_keys(s),
    ensures
        distinct_keys(mapped(s, f)),
        mapped(without(s, k), f) == without(mapped(s, f), k),
{
    let m = mapped(s, f);
    assert forall|a: int, b: int| 0 <= a < b < m.len() implies (#[trigger] m[a]).0 != (
    #[trigger] m[b]).0 by {
        assert(s[a].0 != s[b].0);
    }
    if has_key(s, k) {
        let i = slot(s, k);
        assert(m[i].0 == k);
        lemma_slot(m, k, i);
    } else {
        if has_key(m, k) {
            let j = slot(m, k);
            assert(s[j].0 == k);
        }
    }
    assert(mapped(without(s, k), f) =~= without(m, k));
}

/// One key with its value.
#[derive(Clone, Debug, PartialEq, Eq)]
pub struct Entry<K, V> {
    pub key: K,
    pub value: V,
}

/// A small map that remembers the order in which its keys first arrived.
/// Replacing the value of a key leaves the key where it stands.
#[derive(Debug, PartialEq, Eq)]
pub struct KeyedList<K, V> {
    entries: Vec<Entry<K, V>>,
}

impl<K, V> KeyedList<K, V> {
    /// The entries in order, as pairs.
    pub closed spec fn entries(&self) -> Seq<(K, V)> {
        self.entries@.map_values(|e: Entry<K, V>| (e.key, e.value))
    }

    /// What holds of every list: no key occurs in two of its entries.
    #[verifier::type_invariant]
    pub open spec fn keys_are_distinct(&self) -> bool {
        distinct_keys(self.entries())
    }
}

impl<K: Key, V> KeyedList<K, V> {

    /// A list without entries.
    pub fn new() -> (list: Self)
        ensures
            list.entries() == Seq::<(K, V)>::empty(),
    {
        KeyedList { entries: Vec::new() }
    }

    /// The number of entries. No key occurs in two of them.
    pub fn len(&self) -> (n: usize)
        ensures
            n == self.entries().len(),
            distinct_keys(self.entries()),
    {
        proof {
            use_type_invariant(self);
        }
        self.entries.len()
    }

    /// The key at position `i`.
    pub fn key_at(&self, i: usize) -> (k: K)
        requires
            i < self.entries().len(),
        ensures
            k == self.entries()[i as int].0,
    {
        self.entries[i].key
    }

    /// The value at position `i`.
    pub fn value_at(&self, i: usize) -> (v: &V)
        requires
            i < self.entries().len(),
        ensures
            *v == self.entries()[i as int].1,
    {
        &self.entries[i].value
    }

    /// The position of `key`, where it is present.
    pub fn position(&self, key: &K) -> (r: Option<usize>)
        ensures
            r is Some <==> has_key(self.entries(), *key),
            r is Some ==> r->0 == slot(self.entries(), *key),
    {
        proof {
            use_type_invariant(self);
        }
        let mut i: usize = 0;
        while i < self.entries.len()
            invariant
                i <= self.entries.len(),
                distinct_keys(self.entries()),
                forall|j: int| 0 <= j < i ==> (#[trigger] self.entries()[j]).0 != *key,
            decreases self.entries.len() - i,
        {
            if self.entries[i].key.same(key) {
                assert(self.entries()[i as int].0 == *key);
                return Some(i);
            }
            i = i + 1;
        }
        None
    }

    /// The value stored for `key`, where it is present.
    pub fn get(&self, key: &K) -> (r: Option<&V>)
        ensures
            r is Some <==> has_key(self.entries(), *key),
            r is Some ==> Some(*r->0) == lookup(self.entries(), *key),
    {
        match self.position(key) {
            Some(i) => Some(&self.entries[i].value),
            None => None,
        }
    }

    /// Stores `value` for `key`, in place of what was stored for it before.
    pub fn insert(&mut self, key: K, value: V)
        ensures
            final(self).entries() == upsert(old(self).entries(), key, value),
            distinct_keys(old(self).entries()),
            distinct_keys(final(self).entries()),
    {
        proof {
            use_type_invariant(&*self);
        }
        let found = self.position(&key);
        let mut taken = KeyedList { entries: Vec::new() };
        core::mem::swap(self, &mut taken);
        let mut entries = taken.entries;
        match found {
            Some(i) => {
                entries.set(i, Entry { key, value });
            },
            None => {
                entries.push(Entry { key, value });
            },
        }
        let ghost after = entries@.map_values(|e: Entry<K, V>| (e.key, e.value));
        assert(after =~= upsert(old(self).entries(), key, value));
        *self = KeyedList { entries };
    }

    /// Takes out the entry of `key`, where there is one.
    pub fn remove(&mut self, key: &K)
        ensures
            final(self).entries() == without(old(self).entries(), *key),
            distinct_keys(old(self).entries()),
            distinct_keys(final(self).entries()),
    {
        proof {
            use_type_invariant(&*self);
        }
        let found = self.position(key);
        let mut taken = KeyedList { entries: Vec::new() };
        core::mem::swap(self, &mut taken);
        let mut entries = taken.entries;
        match found {
            Some(i) => {
                entries.remove(i);
            },
            None => {},
        }
        let ghost after = entries@.map_values(|e: Entry<K, V>| (e.key, e.value));
        assert(after =~= without(old(self).entries(), *key));
        *self = KeyedList { entries };
    }
}

} // verus!
