//! What a value that was put lives through: reads and writes of other keys
//! leave it to be found, as long as no key in the hot tier shares its file
//! name, which is a digest of the key.

use vstd::prelude::*;
use crate::storage::layout::file_name;
use crate::storage::lru_cache::{
    after_put,
    holds_key,
    keys_distinct,
    lemma_after_put_distinct,
    lemma_after_use_distinct,
    position_of,
    value_under,
};
use crate::storage::tiered::{
    Tiers,
    entered_hot,
    evicts,
    in_cold,
    in_warm,
    tiers_after_get,
    tiers_after_put,
    tiers_lookup,
    tiers_wf,
};

verus! {

/// Whether no other key in the hot tier has the file name of `key`: two
/// keys share a file name only where their digests collide.
pub open spec fn no_name_clash(t: Tiers, key: Seq<u8>) -> bool {
    forall|i: int|
        0 <= i < t.hot.len() && (#[trigger] t.hot[i]).0 != key ==> file_name(t.hot[i].0)
            != file_name(key)
}

proof fn lemma_value_at(entries: Seq<(Seq<u8>, Seq<u8>)>, i: int)
    requires
        keys_distinct(entries),
        0 <= i < entries.len(),
    ensures
        holds_key(entries, entries[i].0),
        value_under(entries, entries[i].0) == Some(entries[i].1),
{
    assert(holds_key(entries, entries[i].0));
    let p = position_of(entries, entries[i].0);
    if p < i {
        assert(entries[p].0 != entries[i].0);
    } else if i < p {
        assert(entries[i].0 != entries[p].0);
    }
}

/// What a put does to another key of the hot tier: it goes where it was the
/// least recently used entry of a full tier and the put key is new, and
/// else it stays with its value. Every entry afterwards is the new one or
/// one from before.
proof fn lemma_after_put_other(
    entries: Seq<(Seq<u8>, Seq<u8>)>,
    capacity: nat,
    key: Seq<u8>,
    value: Seq<u8>,
    other: Seq<u8>,
)
    requires
        keys_distinct(entries),
        entries.len() <= capacity,
        capacity > 0,
        other != key,
    ensures
        ({
            let after = after_put(entries, capacity, key, value);
            let evicted = !holds_key(entries, key) && entries.len() == capacity && entries[0].0
                == other;
            &&& evicted ==> !holds_key(after, other) && value_under(entries, other) == Some(
                entries[0].1,
            )
            &&& !evicted ==> value_under(after, other) == value_under(entries, other)
            &&& forall|a: int|
                0 <= a < after.len() ==> (#[trigger] after[a]) == (key, value) || exists|b: int|
                    0 <= b < entries.len() && entries[b] == after[a]
        }),
{
    let after = after_put(entries, capacity, key, value);
    lemma_after_put_distinct(entries, capacity, key, value);
    let n = after.len() - 1;
    let shift = |a: int|
        if holds_key(entries, key) {
            if a < position_of(entries, key) {
                a
            } else {
                a + 1
            }
        } else if entries.len() >= capacity && entries.len() > 0 {
            a + 1
        } else {
            a
        };
    assert forall|a: int| 0 <= a < n implies 0 <= shift(a) < entries.len() && entries[shift(a)]
        == #[trigger] after[a] by {}
    assert forall|a: int| 0 <= a < after.len() implies (#[trigger] after[a]) == (key, value)
        || exists|b: int| 0 <= b < entries.len() && entries[b] == after[a] by {
        if a < n {
            assert(entries[shift(a)] == after[a]);
        }
    }
    let evicted = !holds_key(entries, key) && entries.len() == capacity && entries[0].0 == other;
    if evicted {
        lemma_value_at(entries, 0);
        if holds_key(after, other) {
            let a = position_of(after, other);
            assert(a < n);
            assert(entries[a + 1] == after[a]);
            assert(entries[0].0 != entries[a + 1].0);
        }
    } else if holds_key(entries, other) {
        let j = position_of(entries, other);
        lemma_value_at(entries, j);
        // The entry stands in `after` too.
        let a = if holds_key(entries, key) {
            if j < position_of(entries, key) {
                j
            } else {
                j - 1
            }
        } else if entries.len() >= capacity && entries.len() > 0 {
            j - 1
        } else {
            j
        };
        assert(0 <= a < n);
        assert(after[a] == entries[j]);
        lemma_value_at(after, a);
    } else {
        if holds_key(after, other) {
            let a = position_of(after, other);
            assert(a < n);
            assert(entries[shift(a)] == after[a]);
            assert(holds_key(entries, other));
        }
    }
}

proof fn lemma_entered_hot_other(t: Tiers, other: Seq<u8>, value: Seq<u8>, key: Seq<u8>)
    requires
        tiers_wf(t),
        other != key,
        file_name(other) != file_name(key),
        no_name_clash(t, key),
    ensures
        tiers_lookup(entered_hot(t, other, value), key) == tiers_lookup(t, key),
        no_name_clash(entered_hot(t, other, value), key),
        tiers_wf(entered_hot(t, other, value)),
{
    let after = entered_hot(t, other, value);
    lemma_after_put_distinct(t.hot, t.capacity, other, value);
    lemma_after_put_other(t.hot, t.capacity, other, value, key);
    assert forall|i: int| 0 <= i < after.hot.len() && (#[trigger] after.hot[i]).0
        != key implies file_name(after.hot[i].0) != file_name(key) by {
        if after.hot[i] != (other, value) {
            let b = choose|b: int| 0 <= b < t.hot.len() && t.hot[b] == after.hot[i];
            assert(t.hot[b].0 != key);
        }
    }
    if evicts(t, other) {
        assert(t.hot.len() > 0);
        if t.hot[0].0 != key {
            assert(file_name(t.hot[0].0) != file_name(key));
        }
    }
}

/// A put of another key, whose file name is another one too, leaves the
/// value of `key` to be found, and no clash of names arises from it.
pub proof fn law_put_keeps_other_key(t: Tiers, key: Seq<u8>, other: Seq<u8>, value: Seq<u8>)
    requires
        tiers_wf(t),
        other != key,
        file_name(other) != file_name(key),
        no_name_clash(t, key),
    ensures
        tiers_lookup(tiers_after_put(t, other, value), key) == tiers_lookup(t, key),
        no_name_clash(tiers_after_put(t, other, value), key),
        tiers_wf(tiers_after_put(t, other, value)),
{
    let written = Tiers { warm: t.warm.insert(file_name(other), value), ..t };
    assert(in_warm(written, key) == in_warm(t, key));
    assert(tiers_lookup(written, key) == tiers_lookup(t, key));
    lemma_entered_hot_other(written, other, value, key);
}

/// A read of any key leaves the value of `key` to be found, and no clash
/// of names arises from it: a read of another key, whose file name is
/// another one too, and a read of the key itself.
pub proof fn law_get_keeps_key(t: Tiers, key: Seq<u8>, read: Seq<u8>)
    requires
        tiers_wf(t),
        read != key ==> file_name(read) != file_name(key),
        no_name_clash(t, key),
    ensures
        tiers_lookup(tiers_after_get(t, read), key) == tiers_lookup(t, key),
        no_name_clash(tiers_after_get(t, read), key),
        tiers_wf(tiers_after_get(t, read)),
{
    let after = tiers_after_get(t, read);
    match value_under(t.hot, read) {
        Some(_) => {
            lemma_after_use_distinct(t.hot, read);
            let i = position_of(t.hot, read);
            assert forall|a: int| 0 <= a < after.hot.len() && (#[trigger] after.hot[a]).0
                != key implies file_name(after.hot[a].0) != file_name(key) by {
                if a < after.hot.len() - 1 {
                    let b = if a < i {
                        a
                    } else {
                        a + 1
                    };
                    assert(after.hot[a] == t.hot[b]);
                    assert(t.hot[b].0 != key);
                } else {
                    assert(after.hot[a] == t.hot[i]);
                    assert(t.hot[i].0 != key);
                }
            }
        },
        None => {
            let found = match in_warm(t, read) {
                Some(value) => Some(value),
                None => in_cold(t, read),
            };
            if found is Some {
                let value = found->Some_0;
                assert(after == entered_hot(t, read, value));
                if read != key {
                    lemma_entered_hot_other(t, read, value, key);
                } else {
                    lemma_after_put_distinct(t.hot, t.capacity, key, value);
                    lemma_after_put_other_entries(t.hot, t.capacity, key, value);
                    assert forall|a: int| 0 <= a < after.hot.len() && (#[trigger] after.hot[a]).0
                        != key implies file_name(after.hot[a].0) != file_name(key) by {
                        let b = choose|b: int| 0 <= b < t.hot.len() && t.hot[b] == after.hot[a];
                        assert(t.hot[b].0 != key);
                    }
                }
            }
        },
    }
}

/// Every entry after a put is the new one or one from before.
proof fn lemma_after_put_other_entries(
    entries: Seq<(Seq<u8>, Seq<u8>)>,
    capacity: nat,
    key: Seq<u8>,
    value: Seq<u8>,
)
    requires
        keys_distinct(entries),
        entries.len() <= capacity,
        capacity > 0,
    ensures
        forall|a: int|
            0 <= a < after_put(entries, capacity, key, value).len() ==> (#[trigger] after_put(
                entries,
                capacity,
                key,
                value,
            )[a]) == (key, value) || exists|b: int|
                0 <= b < entries.len() && entries[b] == after_put(entries, capacity, key, value)[a],
{
    let after = after_put(entries, capacity, key, value);
    let n = after.len() - 1;
    assert forall|a: int| 0 <= a < after.len() implies (#[trigger] after[a]) == (key, value)
        || exists|b: int| 0 <= b < entries.len() && entries[b] == after[a] by {
        if a < n {
            let b = if holds_key(entries, key) {
                if a < position_of(entries, key) {
                    a
                } else {
                    a + 1
                }
            } else if entries.len() >= capacity && entries.len() > 0 {
                a + 1
            } else {
                a
            };
            assert(entries[b] == after[a]);
        }
    }
}

} // verus!
