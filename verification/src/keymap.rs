//! An ordered map from 32-byte keys to values.

use vstd::prelude::*;
use crate::keys::{PublicKey, KeyOrder, lex_lt, compare_keys, lemma_lex_transitive, lemma_lex_asymmetric};

verus! {

/// A map keyed by 32-byte keys, held as a vector of entries in strictly
/// ascending key order.
#[derive(Debug, Clone)]
pub struct KeyMap<V> {
    entries: Vec<(PublicKey, V)>,
}

/// The keys of a sequence of entries are strictly ascending.
pub open spec fn strictly_sorted<V>(s: Seq<(PublicKey, V)>) -> bool {
    forall|i: int, j: int| 0 <= i < j < s.len() ==> lex_lt(#[trigger] s[i].0@, #[trigger] s[j].0@)
}

/// Whether some entry of `s` has the key `k`.
pub open spec fn has_key<V>(s: Seq<(PublicKey, V)>, k: Seq<u8>) -> bool {
    exists|i: int| 0 <= i < s.len() && #[trigger] s[i].0@ == k
}

/// The position of the first entry of `s` with the key `k`.
pub open spec fn index_of<V>(s: Seq<(PublicKey, V)>, k: Seq<u8>) -> int {
    choose|i: int| 0 <= i < s.len() && #[trigger] s[i].0@ == k
}

/// The map that a sequence of entries stands for.
pub open spec fn entries_map<V>(s: Seq<(PublicKey, V)>) -> Map<Seq<u8>, V> {
    Map::new(|k: Seq<u8>| has_key(s, k), |k: Seq<u8>| s[index_of(s, k)].1)
}

/// In a strictly sorted sequence a key stands at one position only.
pub proof fn lemma_sorted_unique<V>(s: Seq<(PublicKey, V)>, i: int, j: int)
    requires
        strictly_sorted(s),
        0 <= i < s.len(),
        0 <= j < s.len(),
        s[i].0@ == s[j].0@,
    ensures
        i == j,
{
    if i < j {
        lemma_lex_asymmetric(s[i].0@, s[j].0@);
    } else if j < i {
        lemma_lex_asymmetric(s[j].0@, s[i].0@);
    }
}

/// In a strictly sorted sequence the entry at `i` is the one found under its key.
pub proof fn lemma_index_of_entry<V>(s: Seq<(PublicKey, V)>, i: int)
    requires
        strictly_sorted(s),
        0 <= i < s.len(),
    ensures
        has_key(s, s[i].0@),
        index_of(s, s[i].0@) == i,
{
    lemma_sorted_unique(s, index_of(s, s[i].0@), i);
}

impl<V> KeyMap<V> {
    /// The entries in ascending key order.
    pub closed spec fn entries(self) -> Seq<(PublicKey, V)> {
        self.entries@
    }

    /// The keys are strictly ascending, so no key occurs twice.
    pub open spec fn wf(self) -> bool {
        strictly_sorted(self.entries())
    }

    /// Whether the map holds `k`.
    pub open spec fn contains(self, k: Seq<u8>) -> bool {
        has_key(self.entries(), k)
    }

    /// The value stored under `k`, where the map holds `k`.
    pub open spec fn value(self, k: Seq<u8>) -> V {
        self.entries()[index_of(self.entries(), k)].1
    }

    /// The map as a mathematical map from key bytes to values.
    pub open spec fn view(self) -> Map<Seq<u8>, V> {
        entries_map(self.entries())
    }

    pub fn new() -> (m: Self)
        ensures
            m.wf(),
            m.entries() == Seq::<(PublicKey, V)>::empty(),
    {
        KeyMap { entries: Vec::new() }
    }

    pub fn len(&self) -> (n: usize)
        ensures
            n == self.entries().len(),
    {
        self.entries.len()
    }

    pub fn is_empty(&self) -> (b: bool)
        ensures
            b == (self.entries().len() == 0),
    {
        self.entries.len() == 0
    }

    /// Binary search: the position of `key`, or the position at which it
    /// would have to be inserted.
    pub fn search(&self, key: &PublicKey) -> (r: (bool, usize))
        requires
            self.wf(),
        ensures
            r.1 <= self.entries().len(),
            r.0 ==> r.1 < self.entries().len() && self.entries()[r.1 as int].0@ == key@,
            r.0 == self.contains(key@),
            r.0 ==> r.1 == index_of(self.entries(), key@),
            forall|i: int| 0 <= i < r.1 ==> lex_lt(#[trigger] self.entries()[i].0@, key@),
            forall|i: int|
                r.1 + (if r.0 { 1int } else { 0int }) <= i < self.entries().len() ==> lex_lt(
                    key@,
                    #[trigger] self.entries()[i].0@,
                ),
    {
        let mut lo: usize = 0;
        let mut hi: usize = self.entries.len();
        while lo < hi
            invariant
                self.wf(),
                lo <= hi <= self.entries@.len(),
                forall|i: int| 0 <= i < lo ==> lex_lt(#[trigger] self.entries@[i].0@, key@),
                forall|i: int|
                    hi <= i < self.entries@.len() ==> lex_lt(key@, #[trigger] self.entries@[i].0@),
            decreases hi - lo,
        {
            let mid = lo + (hi - lo) / 2;
            match compare_keys(&self.entries[mid].0, key) {
                KeyOrder::Equal => {
                    proof {
                        let s = self.entries@;
                        assert forall|i: int| 0 <= i < mid implies lex_lt(
                            #[trigger] s[i].0@,
                            key@,
                        ) by {
                            assert(lex_lt(s[i].0@, s[mid as int].0@));
                        }
                        assert forall|i: int| mid < i < s.len() implies lex_lt(
                            key@,
                            #[trigger] s[i].0@,
                        ) by {
                            assert(lex_lt(s[mid as int].0@, s[i].0@));
                        }
                        assert(s[mid as int].0@ == key@);
                        let w = index_of(s, key@);
                        lemma_sorted_unique(s, w, mid as int);
                    }
                    return (true, mid);
                },
                KeyOrder::Less => {
                    proof {
                        let s = self.entries@;
                        assert forall|i: int| 0 <= i < mid + 1 implies lex_lt(
                            #[trigger] s[i].0@,
                            key@,
                        ) by {
                            if i < mid {
                                assert(lex_lt(s[i].0@, s[mid as int].0@));
                                lemma_lex_transitive(s[i].0@, s[mid as int].0@, key@);
                            }
                        }
                    }
                    lo = mid + 1;
                },
                KeyOrder::Greater => {
                    proof {
                        let s = self.entries@;
                        assert forall|i: int| mid <= i < s.len() implies lex_lt(
                            key@,
                            #[trigger] s[i].0@,
                        ) by {
                            if mid < i {
                                assert(lex_lt(s[mid as int].0@, s[i].0@));
                                lemma_lex_transitive(key@, s[mid as int].0@, s[i].0@);
                            }
                        }
                    }
                    hi = mid;
                },
            }
        }
        proof {
            let s = self.entries@;
            if has_key(s, key@) {
                let w = index_of(s, key@);
                if w < lo {
                    lemma_lex_asymmetric(s[w].0@, key@);
                } else {
                    lemma_lex_asymmetric(key@, s[w].0@);
                }
            }
        }
        (false, lo)
    }
    /// Whether the map holds `key`.
    pub fn contains_key(&self, key: &PublicKey) -> (b: bool)
        requires
            self.wf(),
        ensures
            b == self.contains(key@),
    {
        self.search(key).0
    }

    /// The value stored under `key`.
    pub fn get(&self, key: &PublicKey) -> (r: Option<&V>)
        requires
            self.wf(),
        ensures
            r.is_some() == self.contains(key@),
            r matches Some(v) ==> *v == self.value(key@),
    {
        let (found, i) = self.search(key);
        if found {
            Some(&self.entries[i].1)
        } else {
            None
        }
    }

    /// A mutable reference to the value stored under `key`. What is written
    /// through it replaces the value; the keys stay as they are.
    pub fn get_mut(&mut self, key: &PublicKey) -> (r: Option<&mut V>)
        requires
            old(self).wf(),
        ensures
            r.is_some() == old(self).contains(key@),
            final(self).wf(),
            match r {
                Some(v) => {
                    &&& *v == old(self).value(key@)
                    &&& final(self).entries() == old(self).entries().update(
                        index_of(old(self).entries(), key@),
                        (*key, *final(v)),
                    )
                    &&& final(self)@ == old(self)@.insert(key@, *final(v))
                },
                None => final(self).entries() == old(self).entries(),
            },
    {
        let (found, i) = self.search(key);
        if found {
            proof {
                let s = self.entries@;
                assert(s[i as int].0 =~= *key);
                assert forall|v: V|
                    strictly_sorted(#[trigger] s.update(i as int, (*key, v))) && entries_map(
                        s.update(i as int, (*key, v)),
                    ) == entries_map(s).insert(key@, v) by {
                    let t = s.update(i as int, (*key, v));
                    assert forall|a: int, b: int| 0 <= a < b < t.len() implies lex_lt(
                        #[trigger] t[a].0@,
                        #[trigger] t[b].0@,
                    ) by {
                        assert(lex_lt(s[a].0@, s[b].0@));
                    }
                    Self::lemma_update_view(s, t, i as int, *key, v);
                }
            }
            Some(&mut self.entries[i].1)
        } else {
            None
        }
    }

    /// The key of the entry at position `i` in ascending key order.
    pub fn key_at(&self, i: usize) -> (k: &PublicKey)
        requires
            i < self.entries().len(),
        ensures
            *k == self.entries()[i as int].0,
    {
        &self.entries[i].0
    }

    /// The value of the entry at position `i` in ascending key order.
    pub fn value_at(&self, i: usize) -> (v: &V)
        requires
            i < self.entries().len(),
        ensures
            *v == self.entries()[i as int].1,
    {
        &self.entries[i].1
    }

    /// Replaces the value of the entry at position `i`, and returns the old one.
    pub fn replace_at(&mut self, i: usize, value: V) -> (r: V)
        requires
            old(self).wf(),
            i < old(self).entries().len(),
        ensures
            final(self).wf(),
            r == old(self).entries()[i as int].1,
            final(self).entries() == old(self).entries().update(
                i as int,
                (old(self).entries()[i as int].0, value),
            ),
    {
        let ghost s = self.entries@;
        let old_entry = self.entries.remove(i);
        self.entries.insert(i, (old_entry.0, value));
        proof {
            let t = self.entries@;
            assert(t =~= s.update(i as int, (s[i as int].0, value)));
            assert forall|a: int, b: int| 0 <= a < b < t.len() implies lex_lt(
                #[trigger] t[a].0@,
                #[trigger] t[b].0@,
            ) by {
                assert(lex_lt(s[a].0@, s[b].0@));
            }
        }
        old_entry.1
    }

    /// Stores `value` under `key`, and returns the value that stood there.
    pub fn insert(&mut self, key: PublicKey, value: V) -> (r: Option<V>)
        requires
            old(self).wf(),
        ensures
            final(self).wf(),
            final(self)@ == old(self)@.insert(key@, value),
            r == (if old(self).contains(key@) {
                Some(old(self).value(key@))
            } else {
                None
            }),
            old(self).contains(key@) ==> final(self).entries() == old(self).entries().update(
                index_of(old(self).entries(), key@),
                (key, value),
            ),
            !old(self).contains(key@) ==> final(self).entries().len() == old(self).entries().len()
                + 1,
            !old(self).contains(key@) ==> exists|i: int|
                0 <= i <= old(self).entries().len() && final(self).entries() == #[trigger] old(
                    self,
                ).entries().insert(i, (key, value)),
    {
        let ghost s = self.entries@;
        let (found, i) = self.search(&key);
        if found {
            let old_value = self.replace_at(i, value);
            proof {
                let t = self.entries@;
                assert(s[i as int].0 =~= key);
                assert(t =~= s.update(i as int, (key, value)));
                Self::lemma_update_view(s, t, i as int, key, value);
            }
            Some(old_value)
        } else {
            self.entries.insert(i, (key, value));
            proof {
                let t = self.entries@;
                assert forall|a: int, b: int| 0 <= a < b < t.len() implies lex_lt(
                    #[trigger] t[a].0@,
                    #[trigger] t[b].0@,
                ) by {
                    if b < i {
                        assert(lex_lt(s[a].0@, s[b].0@));
                    } else if b == i {
                        assert(lex_lt(s[a].0@, key@));
                    } else if a < i {
                        assert(lex_lt(s[a].0@, s[b - 1].0@));
                    } else if a == i {
                        assert(lex_lt(key@, s[b - 1].0@));
                    } else {
                        assert(lex_lt(s[a - 1].0@, s[b - 1].0@));
                    }
                }
                Self::lemma_insert_view(s, t, i as int, key, value);
                assert(t == s.insert(i as int, (key, value)));
            }
            None
        }
    }

    /// Removes `key`, and returns the value that stood under it.
    pub fn remove(&mut self, key: &PublicKey) -> (r: Option<V>)
        requires
            old(self).wf(),
        ensures
            final(self).wf(),
            final(self)@ == old(self)@.remove(key@),
            r == (if old(self).contains(key@) {
                Some(old(self).value(key@))
            } else {
                None
            }),
            old(self).contains(key@) ==> final(self).entries() == old(self).entries().remove(
                index_of(old(self).entries(), key@),
            ),
            !old(self).contains(key@) ==> final(self).entries() == old(self).entries(),
    {
        let ghost s = self.entries@;
        let (found, i) = self.search(key);
        if found {
            let entry = self.entries.remove(i);
            proof {
                let t = self.entries@;
                assert forall|a: int, b: int| 0 <= a < b < t.len() implies lex_lt(
                    #[trigger] t[a].0@,
                    #[trigger] t[b].0@,
                ) by {
                    let a0 = if a < i { a } else { a + 1 };
                    let b0 = if b < i { b } else { b + 1 };
                    assert(lex_lt(s[a0].0@, s[b0].0@));
                }
                Self::lemma_remove_view(s, t, i as int);
            }
            Some(entry.1)
        } else {
            proof {
                assert(self@ =~= old(self)@.remove(key@));
            }
            None
        }
    }

    proof fn lemma_update_view(
        s: Seq<(PublicKey, V)>,
        t: Seq<(PublicKey, V)>,
        i: int,
        key: PublicKey,
        value: V,
    )
        requires
            strictly_sorted(s),
            strictly_sorted(t),
            0 <= i < s.len(),
            s[i].0@ == key@,
            t == s.update(i, (key, value)),
        ensures
            entries_map(t) == entries_map(s).insert(key@, value),
    {
        let mt = entries_map(t);
        let ms = entries_map(s);
        assert forall|k: Seq<u8>| has_key(t, k) <==> (has_key(s, k) || k == key@) by {
            if has_key(t, k) {
                let w = index_of(t, k);
                assert(s[w].0@ == k);
            }
            if has_key(s, k) {
                let w = index_of(s, k);
                assert(t[w].0@ == k);
            }
            if k == key@ {
                assert(t[i].0@ == k);
            }
        }
        assert forall|k: Seq<u8>| has_key(t, k) implies #[trigger] mt[k] == ms.insert(
            key@,
            value,
        )[k] by {
            let w = index_of(t, k);
            assert(s[w].0@ == k);
            lemma_index_of_entry(s, w);
            if k == key@ {
                lemma_sorted_unique(t, w, i);
            }
        }
        assert(mt =~= ms.insert(key@, value));
    }

    pub proof fn lemma_insert_view(
        s: Seq<(PublicKey, V)>,
        t: Seq<(PublicKey, V)>,
        i: int,
        key: PublicKey,
        value: V,
    )
        requires
            strictly_sorted(s),
            strictly_sorted(t),
            0 <= i <= s.len(),
            !has_key(s, key@),
            t == s.insert(i, (key, value)),
        ensures
            entries_map(t) == entries_map(s).insert(key@, value),
    {
        let mt = entries_map(t);
        let ms = entries_map(s);
        assert forall|k: Seq<u8>| has_key(t, k) <==> (has_key(s, k) || k == key@) by {
            if has_key(t, k) {
                let w = index_of(t, k);
                if w < i {
                    assert(s[w].0@ == k);
                } else if w > i {
                    assert(s[w - 1].0@ == k);
                }
            }
            if has_key(s, k) {
                let w = index_of(s, k);
                if w < i {
                    assert(t[w].0@ == k);
                } else {
                    assert(t[w + 1].0@ == k);
                }
            }
            if k == key@ {
                assert(t[i].0@ == k);
            }
        }
        assert forall|k: Seq<u8>| has_key(t, k) implies #[trigger] mt[k] == ms.insert(
            key@,
            value,
        )[k] by {
            let w = index_of(t, k);
            if w < i {
                assert(s[w].0@ == k);
                lemma_index_of_entry(s, w);
            } else if w > i {
                assert(s[w - 1].0@ == k);
                lemma_index_of_entry(s, w - 1);
            } else {
            }
        }
        assert(mt =~= ms.insert(key@, value));
    }

    pub proof fn lemma_remove_view(s: Seq<(PublicKey, V)>, t: Seq<(PublicKey, V)>, i: int)
        requires
            strictly_sorted(s),
            strictly_sorted(t),
            0 <= i < s.len(),
            t == s.remove(i),
        ensures
            entries_map(t) == entries_map(s).remove(s[i].0@),
    {
        let key = s[i].0@;
        let mt = entries_map(t);
        let ms = entries_map(s);
        assert forall|k: Seq<u8>| has_key(t, k) <==> (has_key(s, k) && k != key) by {
            if has_key(t, k) {
                let w = index_of(t, k);
                let w0 = if w < i { w } else { w + 1 };
                assert(s[w0].0@ == k);
                if k == key {
                    lemma_sorted_unique(s, w0, i);
                }
            }
            if has_key(s, k) && k != key {
                let w = index_of(s, k);
                if w < i {
                    assert(t[w].0@ == k);
                } else {
                    assert(t[w - 1].0@ == k);
                }
            }
        }
        assert forall|k: Seq<u8>| has_key(t, k) implies #[trigger] mt[k] == ms.remove(key)[k] by {
            let w = index_of(t, k);
            let w0 = if w < i { w } else { w + 1 };
            assert(s[w0].0@ == k);
            lemma_index_of_entry(s, w0);
        }
        assert(mt =~= ms.remove(key));
    }
}

/// Two strictly sorted sequences that stand for one map are equal: the
/// entries of a map do not depend on the order in which they were inserted.
pub proof fn lemma_sorted_entries_unique<V>(s: Seq<(PublicKey, V)>, t: Seq<(PublicKey, V)>)
    requires
        strictly_sorted(s),
        strictly_sorted(t),
        entries_map(s) == entries_map(t),
    ensures
        s == t,
    decreases s.len(),
{
    if s.len() == 0 {
        if t.len() > 0 {
            assert(has_key(t, t[0].0@));
            assert(entries_map(t).dom().contains(t[0].0@));
            assert(entries_map(s).dom().contains(t[0].0@));
        }
        assert(s =~= t);
    } else {
        let n = s.len() - 1;
        let key = s[n].0@;
        assert(has_key(s, key));
        assert(entries_map(s).dom().contains(key));
        assert(entries_map(t).dom().contains(key));
        assert(has_key(t, key));
        let j = index_of(t, key);
        let m = t.len() - 1;
        if j < m {
            let other = t[m].0@;
            assert(lex_lt(t[j].0@, other));
            assert(has_key(t, other));
            assert(entries_map(t).dom().contains(other));
            assert(entries_map(s).dom().contains(other));
            assert(has_key(s, other));
            let i = index_of(s, other);
            if i < n {
                assert(lex_lt(s[i].0@, s[n].0@));
                lemma_lex_asymmetric(key, other);
            } else {
                lemma_lex_asymmetric(key, other);
            }
        }
        assert(j == m);
        lemma_index_of_entry(s, n);
        lemma_index_of_entry(t, m);
        assert(entries_map(s)[key] == s[n].1);
        assert(entries_map(t)[key] == t[m].1);
        assert(s[n].0 =~= t[m].0);
        let s0 = s.remove(n);
        let t0 = t.remove(m);
        assert(s0 =~= s.drop_last());
        assert(t0 =~= t.drop_last());
        assert(strictly_sorted(s0)) by {
            assert forall|a: int, b: int| 0 <= a < b < s0.len() implies lex_lt(
                #[trigger] s0[a].0@,
                #[trigger] s0[b].0@,
            ) by {
                assert(lex_lt(s[a].0@, s[b].0@));
            }
        }
        assert(strictly_sorted(t0)) by {
            assert forall|a: int, b: int| 0 <= a < b < t0.len() implies lex_lt(
                #[trigger] t0[a].0@,
                #[trigger] t0[b].0@,
            ) by {
                assert(lex_lt(t[a].0@, t[b].0@));
            }
        }
        KeyMap::<V>::lemma_remove_view(s, s0, n);
        KeyMap::<V>::lemma_remove_view(t, t0, m);
        lemma_sorted_entries_unique(s0, t0);
        assert(s =~= s0.push(s[n]));
        assert(t =~= t0.push(t[m]));
    }
}

} // verus!