//! The hot tier: a bounded cache in RAM that evicts the entry that was
//! used least recently. The cache itself is that of the `lru` crate.

use vstd::prelude::*;
use crate::storage::types::{StorageKey, StorageValue};

verus! {

#[verifier::external_type_specification]
#[verifier::external_body]
#[verifier::reject_recursive_types(K)]
#[verifier::reject_recursive_types(V)]
#[verifier::reject_recursive_types(S)]
pub struct ExLruCache<K, V, S>(lru::LruCache<K, V, S>);

#[verifier::external_type_specification]
#[verifier::external_body]
pub struct ExLruHasher(lru::DefaultHasher);

/// The entries of a cache as pairs of key and value, from the least
/// recently used to the most recently used.
pub uninterp spec fn lru_entries(cache: lru::LruCache<Vec<u8>, Vec<u8>>) -> Seq<(Seq<u8>, Seq<u8>)>;

/// The number of entries that a cache was made to hold.
pub uninterp spec fn lru_capacity(cache: lru::LruCache<Vec<u8>, Vec<u8>>) -> nat;

/// Whether some entry has the key `key`.
pub open spec fn holds_key(entries: Seq<(Seq<u8>, Seq<u8>)>, key: Seq<u8>) -> bool {
    exists|i: int| 0 <= i < entries.len() && (#[trigger] entries[i]).0 == key
}

/// The position of an entry with the key `key`.
pub open spec fn position_of(entries: Seq<(Seq<u8>, Seq<u8>)>, key: Seq<u8>) -> int {
    choose|i: int| 0 <= i < entries.len() && (#[trigger] entries[i]).0 == key
}

/// Whether no key occurs twice.
pub open spec fn keys_distinct(entries: Seq<(Seq<u8>, Seq<u8>)>) -> bool {
    forall|i: int, j: int|
        0 <= i < j < entries.len() ==> (#[trigger] entries[i]).0 != (#[trigger] entries[j]).0
}

/// The value under `key`, if the entries hold the key.
pub open spec fn value_under(entries: Seq<(Seq<u8>, Seq<u8>)>, key: Seq<u8>) -> Option<Seq<u8>> {
    if holds_key(entries, key) {
        Some(entries[position_of(entries, key)].1)
    } else {
        None
    }
}

/// The entries after the entry under `key` was used: it is now the most
/// recently used one.
pub open spec fn after_use(entries: Seq<(Seq<u8>, Seq<u8>)>, key: Seq<u8>) -> Seq<
    (Seq<u8>, Seq<u8>),
> {
    if holds_key(entries, key) {
        let i = position_of(entries, key);
        entries.remove(i).push(entries[i])
    } else {
        entries
    }
}

/// The entries after `value` was put under `key` into a cache of the
/// capacity `capacity`. An entry under the key is replaced, and the entry
/// becomes the most recently used one. For a new key in a full cache the
/// least recently used entry goes.
pub open spec fn after_put(
    entries: Seq<(Seq<u8>, Seq<u8>)>,
    capacity: nat,
    key: Seq<u8>,
    value: Seq<u8>,
) -> Seq<(Seq<u8>, Seq<u8>)> {
    if holds_key(entries, key) {
        entries.remove(position_of(entries, key)).push((key, value))
    } else if entries.len() >= capacity && entries.len() > 0 {
        entries.drop_first().push((key, value))
    } else {
        entries.push((key, value))
    }
}

/// The entries without the entry under `key`.
pub open spec fn after_removal(entries: Seq<(Seq<u8>, Seq<u8>)>, key: Seq<u8>) -> Seq<
    (Seq<u8>, Seq<u8>),
> {
    if holds_key(entries, key) {
        entries.remove(position_of(entries, key))
    } else {
        entries
    }
}

/// `lru::LruCache::new`: an empty cache that holds at most `capacity` entries.
#[verifier::external_body]
fn lru_new(capacity: usize) -> (cache: lru::LruCache<Vec<u8>, Vec<u8>>)
    requires
        capacity > 0,
    ensures
        lru_entries(cache).len() == 0,
        lru_capacity(cache) == capacity,
{
    lru::LruCache::new(std::num::NonZeroUsize::new(capacity).unwrap())
}

/// `lru::LruCache::len`: the number of entries, which is never above the
/// capacity.
#[verifier::external_body]
fn lru_len(cache: &lru::LruCache<Vec<u8>, Vec<u8>>) -> (n: usize)
    ensures
        n == lru_entries(*cache).len(),
        n <= lru_capacity(*cache),
{
    cache.len()
}

/// `lru::LruCache::cap`: the capacity that the cache was made with, which
/// is above zero.
#[verifier::external_body]
fn lru_cap(cache: &lru::LruCache<Vec<u8>, Vec<u8>>) -> (n: usize)
    ensures
        n == lru_capacity(*cache),
        n > 0,
{
    cache.cap().get()
}

/// `lru::LruCache::contains`: whether the key is held. The order of use
/// stays as it is.
#[verifier::external_body]
fn lru_contains(cache: &lru::LruCache<Vec<u8>, Vec<u8>>, key: &[u8]) -> (r: bool)
    ensures
        r == holds_key(lru_entries(*cache), key@),
{
    cache.contains(key)
}

/// `lru::LruCache::get`: a copy of the value under the key, which becomes
/// the most recently used entry; nothing changes for a key that is not held.
#[verifier::external_body]
fn lru_get(cache: &mut lru::LruCache<Vec<u8>, Vec<u8>>, key: &[u8]) -> (r: Option<Vec<u8>>)
    ensures
        lru_capacity(*final(cache)) == lru_capacity(*old(cache)),
        lru_entries(*final(cache)) == after_use(lru_entries(*old(cache)), key@),
        match r {
            Some(value) => value_under(lru_entries(*old(cache)), key@) == Some(value@),
            None => value_under(lru_entries(*old(cache)), key@) is None,
        },
{
    cache.get(key).cloned()
}

/// `lru::LruCache::put`: puts the value under the key as the most recently
/// used entry and returns the value that stood under the key. For a new key
/// in a full cache the least recently used entry is dropped.
#[verifier::external_body]
fn lru_put(cache: &mut lru::LruCache<Vec<u8>, Vec<u8>>, key: Vec<u8>, value: Vec<u8>) -> (r:
    Option<Vec<u8>>)
    ensures
        lru_capacity(*final(cache)) == lru_capacity(*old(cache)),
        lru_entries(*final(cache)) == after_put(
            lru_entries(*old(cache)),
            lru_capacity(*old(cache)),
            key@,
            value@,
        ),
        match r {
            Some(previous) => value_under(lru_entries(*old(cache)), key@) == Some(previous@),
            None => value_under(lru_entries(*old(cache)), key@) is None,
        },
{
    cache.put(key, value)
}

/// `lru::LruCache::pop_lru`: removes and returns the least recently used entry.
#[verifier::external_body]
fn lru_pop_lru(cache: &mut lru::LruCache<Vec<u8>, Vec<u8>>) -> (r: Option<(Vec<u8>, Vec<u8>)>)
    ensures
        lru_capacity(*final(cache)) == lru_capacity(*old(cache)),
        match r {
            Some(entry) => lru_entries(*old(cache)).len() > 0 && (entry.0@, entry.1@)
                == lru_entries(*old(cache))[0] && lru_entries(*final(cache)) == lru_entries(
                *old(cache),
            ).drop_first(),
            None => lru_entries(*old(cache)).len() == 0 && lru_entries(*final(cache))
                == lru_entries(*old(cache)),
        },
{
    cache.pop_lru()
}

/// `lru::LruCache::pop`: removes the entry under the key and returns its value.
#[verifier::external_body]
fn lru_pop(cache: &mut lru::LruCache<Vec<u8>, Vec<u8>>, key: &[u8]) -> (r: Option<Vec<u8>>)
    ensures
        lru_capacity(*final(cache)) == lru_capacity(*old(cache)),
        lru_entries(*final(cache)) == after_removal(lru_entries(*old(cache)), key@),
        match r {
            Some(value) => value_under(lru_entries(*old(cache)), key@) == Some(value@),
            None => value_under(lru_entries(*old(cache)), key@) is None,
        },
{
    cache.pop(key)
}

/// The hot tier. Entries beyond the capacity are evicted in the order of
/// their last use, the least recently used first.
pub struct HotCache {
    inner: lru::LruCache<Vec<u8>, Vec<u8>>,
}

impl HotCache {
    /// The entries from the least recently used to the most recently used.
    pub closed spec fn entries(self) -> Seq<(Seq<u8>, Seq<u8>)> {
        lru_entries(self.inner)
    }

    /// The capacity that the cache was made with.
    pub closed spec fn spec_capacity(self) -> nat {
        lru_capacity(self.inner)
    }

    /// No key is held twice, and no more entries than the capacity, which
    /// is above zero.
    pub open spec fn wf(self) -> bool {
        &&& keys_distinct(self.entries())
        &&& self.entries().len() <= self.spec_capacity()
        &&& self.spec_capacity() > 0
    }

    /// A cache for `capacity` entries.
    pub fn new(capacity: usize) -> (cache: Self)
        requires
            capacity > 0,
        ensures
            cache.wf(),
            cache.entries().len() == 0,
            cache.spec_capacity() == capacity,
    {
        HotCache { inner: lru_new(capacity) }
    }

    /// The value under `key`, which becomes the most recently used entry.
    pub fn get(&mut self, key: &StorageKey) -> (r: Option<StorageValue>)
        requires
            old(self).wf(),
        ensures
            final(self).wf(),
            final(self).spec_capacity() == old(self).spec_capacity(),
            final(self).entries() == after_use(old(self).entries(), key.0@),
            match r {
                Some(value) => value_under(old(self).entries(), key.0@) == Some(value.0@),
                None => value_under(old(self).entries(), key.0@) is None,
            },
    {
        let r = lru_get(&mut self.inner, key.0.as_slice());
        proof {
            lemma_after_use_distinct(old(self).entries(), key.0@);
        }
        match r {
            Some(bytes) => Some(StorageValue(bytes)),
            None => None,
        }
    }

    /// Puts `value` under `key` as the most recently used entry. For a key
    /// that is held the value is replaced, and nothing is evicted. For a new
    /// key in a full cache the least recently used entry is evicted, and
    /// returned so that it can be flushed to the warm tier.
    pub fn put(&mut self, key: StorageKey, value: StorageValue) -> (evicted: Option<
        (StorageKey, StorageValue),
    >)
        requires
            old(self).wf(),
        ensures
            final(self).wf(),
            final(self).spec_capacity() == old(self).spec_capacity(),
            final(self).entries() == after_put(
                old(self).entries(),
                old(self).spec_capacity(),
                key.0@,
                value.0@,
            ),
            value_under(final(self).entries(), key.0@) == Some(value.0@),
            evicted is Some <==> !holds_key(old(self).entries(), key.0@) && old(
                self,
            ).entries().len() == old(self).spec_capacity(),
            evicted matches Some(entry) ==> (entry.0.0@, entry.1.0@) == old(self).entries()[0],
    {
        let ghost before = self.entries();
        let ghost capacity = self.spec_capacity();
        proof {
            lemma_after_put_distinct(before, capacity, key.0@, value.0@);
        }
        if lru_contains(&self.inner, key.0.as_slice()) {
            lru_put(&mut self.inner, key.0, value.0);
            return None;
        }
        let mut evicted: Option<(StorageKey, StorageValue)> = None;
        if lru_len(&self.inner) >= lru_cap(&self.inner) {
            match lru_pop_lru(&mut self.inner) {
                Some(entry) => {
                    evicted = Some((StorageKey(entry.0), StorageValue(entry.1)));
                },
                None => {},
            }
            proof {
                let popped = lru_entries(self.inner);
                assert(popped == before.drop_first());
                if holds_key(popped, key.0@) {
                    let i = position_of(popped, key.0@);
                    assert(before[i + 1].0 == key.0@);
                }
            }
        }
        lru_put(&mut self.inner, key.0, value.0);
        evicted
    }

    /// Removes the entry under `key` and returns its value.
    pub fn remove(&mut self, key: &StorageKey) -> (r: Option<StorageValue>)
        requires
            old(self).wf(),
        ensures
            final(self).wf(),
            final(self).spec_capacity() == old(self).spec_capacity(),
            final(self).entries() == after_removal(old(self).entries(), key.0@),
            !holds_key(final(self).entries(), key.0@),
            match r {
                Some(value) => value_under(old(self).entries(), key.0@) == Some(value.0@),
                None => value_under(old(self).entries(), key.0@) is None,
            },
    {
        let r = lru_pop(&mut self.inner, key.0.as_slice());
        proof {
            lemma_after_removal_distinct(old(self).entries(), key.0@);
        }
        match r {
            Some(bytes) => Some(StorageValue(bytes)),
            None => None,
        }
    }

    /// Whether `key` is held. The order of use stays as it is.
    pub fn contains(&self, key: &StorageKey) -> (r: bool)
        ensures
            r == holds_key(self.entries(), key.0@),
    {
        lru_contains(&self.inner, key.0.as_slice())
    }

    /// The number of entries.
    pub fn len(&self) -> (n: usize)
        ensures
            n == self.entries().len(),
    {
        lru_len(&self.inner)
    }

    /// Whether the cache holds no entry.
    pub fn is_empty(&self) -> (r: bool)
        ensures
            r == (self.entries().len() == 0),
    {
        lru_len(&self.inner) == 0
    }

    /// The capacity that the cache was made with.
    pub fn capacity(&self) -> (n: usize)
        ensures
            n == self.spec_capacity(),
    {
        lru_cap(&self.inner)
    }
}

/// Using an entry keeps the keys distinct and the number of entries, and
/// leaves every value where it was.
pub proof fn lemma_after_use_distinct(entries: Seq<(Seq<u8>, Seq<u8>)>, key: Seq<u8>)
    requires
        keys_distinct(entries),
    ensures
        keys_distinct(after_use(entries, key)),
        after_use(entries, key).len() == entries.len(),
        forall|other: Seq<u8>|
            holds_key(after_use(entries, key), other) == holds_key(entries, other),
        forall|other: Seq<u8>|
            value_under(after_use(entries, key), other) == value_under(entries, other),
{
    let after = after_use(entries, key);
    if holds_key(entries, key) {
        let i = position_of(entries, key);
        let n = entries.len() - 1;
        assert forall|a: int, b: int| 0 <= a < b < after.len() implies (#[trigger] after[a]).0 != (
        #[trigger] after[b]).0 by {
            let a0 = if a < i { a } else { a + 1 };
            let b0 = if b == n { i } else if b < i { b } else { b + 1 };
            assert(after[a] == entries[a0]);
            assert(after[b] == entries[b0]);
            if a0 < b0 {
                assert(entries[a0].0 != entries[b0].0);
            } else {
                assert(entries[b0].0 != entries[a0].0);
            }
        }
        assert forall|other: Seq<u8>|
            holds_key(after, other) == holds_key(entries, other) && value_under(after, other)
                == value_under(entries, other) by {
            if holds_key(entries, other) {
                let w = position_of(entries, other);
                let w1 = if w == i { n } else if w < i { w } else { w - 1 };
                assert(after[w1] == entries[w]);
                assert(holds_key(after, other));
                let v = position_of(after, other);
                if v != w1 {
                    if v < w1 {
                        assert(after[v].0 != after[w1].0);
                    } else {
                        assert(after[w1].0 != after[v].0);
                    }
                }
            }
            if holds_key(after, other) {
                let v = position_of(after, other);
                let v0 = if v == n { i } else if v < i { v } else { v + 1 };
                assert(after[v] == entries[v0]);
                assert(holds_key(entries, other));
            }
        }
    }
}

/// Removing a key keeps the other keys distinct and their values, and the
/// key is gone.
pub proof fn lemma_after_removal_distinct(entries: Seq<(Seq<u8>, Seq<u8>)>, key: Seq<u8>)
    requires
        keys_distinct(entries),
    ensures
        keys_distinct(after_removal(entries, key)),
        after_removal(entries, key).len() <= entries.len(),
        !holds_key(after_removal(entries, key), key),
        forall|other: Seq<u8>|
            other != key ==> value_under(after_removal(entries, key), other) == value_under(
                entries,
                other,
            ) && holds_key(after_removal(entries, key), other) == holds_key(entries, other),
{
    let after = after_removal(entries, key);
    if holds_key(entries, key) {
        let i = position_of(entries, key);
        assert forall|a: int, b: int| 0 <= a < b < after.len() implies (#[trigger] after[a]).0 != (
        #[trigger] after[b]).0 by {
            let a0 = if a < i { a } else { a + 1 };
            let b0 = if b < i { b } else { b + 1 };
            assert(after[a] == entries[a0]);
            assert(after[b] == entries[b0]);
            assert(entries[a0].0 != entries[b0].0);
        }
        if holds_key(after, key) {
            let v = position_of(after, key);
            let v0 = if v < i { v } else { v + 1 };
            assert(after[v] == entries[v0]);
            if v0 < i {
                assert(entries[v0].0 != entries[i].0);
            } else {
                assert(entries[i].0 != entries[v0].0);
            }
        }
        assert forall|other: Seq<u8>| other != key implies value_under(after, other)
            == value_under(entries, other) && holds_key(after, other) == holds_key(
            entries,
            other,
        ) by {
            if holds_key(entries, other) {
                let w = position_of(entries, other);
                let w1 = if w < i { w } else { w - 1 };
                assert(after[w1] == entries[w]);
                assert(holds_key(after, other));
                let v = position_of(after, other);
                if v != w1 {
                    if v < w1 {
                        assert(after[v].0 != after[w1].0);
                    } else {
                        assert(after[w1].0 != after[v].0);
                    }
                }
            }
            if holds_key(after, other) {
                let v = position_of(after, other);
                let v0 = if v < i { v } else { v + 1 };
                assert(after[v] == entries[v0]);
                assert(holds_key(entries, other));
            }
        }
    }
}

/// Putting a value keeps the keys distinct and the cache within its
/// capacity; the value stands under its key afterwards.
pub proof fn lemma_after_put_distinct(
    entries: Seq<(Seq<u8>, Seq<u8>)>,
    capacity: nat,
    key: Seq<u8>,
    value: Seq<u8>,
)
    requires
        keys_distinct(entries),
        entries.len() <= capacity,
        capacity > 0,
    ensures
        keys_distinct(after_put(entries, capacity, key, value)),
        after_put(entries, capacity, key, value).len() <= capacity,
        value_under(after_put(entries, capacity, key, value), key) == Some(value),
        after_put(entries, capacity, key, value).last() == (key, value),
{
    let after = after_put(entries, capacity, key, value);
    let n = after.len() - 1;
    if holds_key(entries, key) {
        let i = position_of(entries, key);
        assert forall|a: int, b: int| 0 <= a < b < after.len() implies (#[trigger] after[a]).0 != (
        #[trigger] after[b]).0 by {
            let a0 = if a < i { a } else { a + 1 };
            assert(after[a] == entries[a0]);
            if b == n {
                if a0 < i {
                    assert(entries[a0].0 != entries[i].0);
                } else {
                    assert(entries[i].0 != entries[a0].0);
                }
            } else {
                let b0 = if b < i { b } else { b + 1 };
                assert(after[b] == entries[b0]);
                assert(entries[a0].0 != entries[b0].0);
            }
        }
    } else if entries.len() >= capacity && entries.len() > 0 {
        assert forall|a: int, b: int| 0 <= a < b < after.len() implies (#[trigger] after[a]).0 != (
        #[trigger] after[b]).0 by {
            assert(after[a] == entries[a + 1]);
            if b < n {
                assert(after[b] == entries[b + 1]);
                assert(entries[a + 1].0 != entries[b + 1].0);
            }
        }
    } else {
        assert forall|a: int, b: int| 0 <= a < b < after.len() implies (#[trigger] after[a]).0 != (
        #[trigger] after[b]).0 by {
            assert(after[a] == entries[a]);
            if b < n {
                assert(after[b] == entries[b]);
            }
        }
    }
    assert(after[n].0 == key);
    assert(holds_key(after, key));
    let v = position_of(after, key);
    if v < n {
        assert(after[v].0 != after[n].0);
    }
}

} // verus!
