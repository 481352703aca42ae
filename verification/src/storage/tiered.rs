//! The tiered storage engine: the hot cache over the warm store over the
//! cold archive. A read looks through the tiers in that order and promotes
//! what it finds to the hot tier; a write goes to the warm tier and to the
//! hot tier; what the hot tier evicts is flushed to the warm tier.

use vstd::prelude::*;
use crate::storage::archive::ColdArchive;
use crate::storage::layout::{FileOpView, file_name};
use crate::storage::lru_cache::{
    HotCache,
    after_put,
    after_removal,
    after_use,
    holds_key,
    keys_distinct,
    lemma_after_put_distinct,
    position_of,
    value_under,
};
use crate::storage::nvme::WarmStore;
use crate::storage::types::{
    StorageConfig,
    StorageError,
    StorageKey,
    StorageResult,
    StorageStats,
    StorageTier,
    StorageValue,
};

verus! {

/// What the three tiers hold: the entries of the hot tier from the least
/// recently used to the most recently used, its capacity, and the files of
/// the warm and of the cold tier by the digests that name them.
pub struct Tiers {
    pub hot: Seq<(Seq<u8>, Seq<u8>)>,
    pub capacity: nat,
    pub warm: Map<Seq<u8>, Seq<u8>>,
    pub cold: Map<Seq<u8>, Seq<u8>>,
}

/// The hot tier holds no key twice, and no more entries than its capacity,
/// which is above zero.
pub open spec fn tiers_wf(t: Tiers) -> bool {
    &&& keys_distinct(t.hot)
    &&& t.hot.len() <= t.capacity
    &&& t.capacity > 0
}

/// Whether putting `key` into the hot tier evicts its least recently used
/// entry: the key is new and the hot tier is full.
pub open spec fn evicts(t: Tiers, key: Seq<u8>) -> bool {
    !holds_key(t.hot, key) && t.hot.len() == t.capacity
}

/// The tiers after `value` entered the hot tier under `key`. An entry that
/// the hot tier evicts for it is flushed to the warm tier.
pub open spec fn entered_hot(t: Tiers, key: Seq<u8>, value: Seq<u8>) -> Tiers {
    Tiers {
        hot: after_put(t.hot, t.capacity, key, value),
        warm: if evicts(t, key) {
            t.warm.insert(file_name(t.hot[0].0), t.hot[0].1)
        } else {
            t.warm
        },
        ..t
    }
}

/// The tiers after a put: the value is written through to the warm tier
/// and enters the hot tier.
pub open spec fn tiers_after_put(t: Tiers, key: Seq<u8>, value: Seq<u8>) -> Tiers {
    entered_hot(Tiers { warm: t.warm.insert(file_name(key), value), ..t }, key, value)
}

/// The value in the warm tier under `key`.
pub open spec fn in_warm(t: Tiers, key: Seq<u8>) -> Option<Seq<u8>> {
    if t.warm.dom().contains(file_name(key)) {
        Some(t.warm[file_name(key)])
    } else {
        None
    }
}

/// The value in the cold tier under `key`.
pub open spec fn in_cold(t: Tiers, key: Seq<u8>) -> Option<Seq<u8>> {
    if t.cold.dom().contains(file_name(key)) {
        Some(t.cold[file_name(key)])
    } else {
        None
    }
}

/// What a read of `key` finds: the value of the first tier that has one,
/// looking through Hot, Warm and Cold in this order.
pub open spec fn tiers_lookup(t: Tiers, key: Seq<u8>) -> Option<Seq<u8>> {
    match value_under(t.hot, key) {
        Some(value) => Some(value),
        None => match in_warm(t, key) {
            Some(value) => Some(value),
            None => in_cold(t, key),
        },
    }
}

/// The tiers after a read of `key`: a hit in the hot tier makes the entry
/// the most recently used one; a hit below is promoted to the hot tier and
/// stays where it was found; a miss changes nothing.
pub open spec fn tiers_after_get(t: Tiers, key: Seq<u8>) -> Tiers {
    match value_under(t.hot, key) {
        Some(_) => Tiers { hot: after_use(t.hot, key), ..t },
        None => match in_warm(t, key) {
            Some(value) => entered_hot(t, key, value),
            None => match in_cold(t, key) {
                Some(value) => entered_hot(t, key, value),
                None => t,
            },
        },
    }
}

/// The tiers after `key` was removed from all of them.
pub open spec fn tiers_after_remove(t: Tiers, key: Seq<u8>) -> Tiers {
    Tiers {
        hot: after_removal(t.hot, key),
        warm: t.warm.remove(file_name(key)),
        cold: t.cold.remove(file_name(key)),
        ..t
    }
}

/// The tiers after `key` was moved from the warm to the cold tier; nothing
/// changes where the warm tier does not have it.
pub open spec fn tiers_after_archive(t: Tiers, key: Seq<u8>) -> Tiers {
    match in_warm(t, key) {
        Some(value) => Tiers {
            warm: t.warm.remove(file_name(key)),
            cold: t.cold.insert(file_name(key), value),
            ..t
        },
        None => t,
    }
}

/// The tiers after each key of `keys`, in order, was evicted from the hot
/// tier and moved from the warm to the cold tier.
pub open spec fn tiers_after_archive_all(t: Tiers, keys: Seq<Seq<u8>>) -> Tiers
    decreases keys.len(),
{
    if keys.len() == 0 {
        t
    } else {
        let before = tiers_after_archive_all(t, keys.drop_last());
        tiers_after_archive(
            Tiers { hot: after_removal(before.hot, keys.last()), ..before },
            keys.last(),
        )
    }
}

/// How many of `keys`, taken in order, the warm tier had when their turn came.
pub open spec fn archived_count(t: Tiers, keys: Seq<Seq<u8>>) -> nat
    decreases keys.len(),
{
    if keys.len() == 0 {
        0
    } else {
        let before = tiers_after_archive_all(t, keys.drop_last());
        archived_count(t, keys.drop_last()) + (if in_warm(before, keys.last()) is Some {
            1nat
        } else {
            0nat
        })
    }
}

/// The first tier that has `key`, looking through Hot, Warm and Cold.
pub open spec fn tiers_locate(t: Tiers, key: Seq<u8>) -> Option<StorageTier> {
    if holds_key(t.hot, key) {
        Some(StorageTier::Hot)
    } else if in_warm(t, key) is Some {
        Some(StorageTier::Warm)
    } else if in_cold(t, key) is Some {
        Some(StorageTier::Cold)
    } else {
        None
    }
}

/// What is written to the warm tier on disk when `key` enters the hot
/// tier: the entry that the hot tier evicts for it, if it evicts one.
pub open spec fn flush_ops(t: Tiers, key: Seq<u8>) -> Seq<FileOpView> {
    if evicts(t, key) {
        seq![FileOpView::Write { name: file_name(t.hot[0].0), data: t.hot[0].1 }]
    } else {
        Seq::<FileOpView>::empty()
    }
}

/// What a put records for the warm tier on disk: the write of the value,
/// then the write of what the hot tier evicts.
pub open spec fn warm_ops_of_put(t: Tiers, key: Seq<u8>, value: Seq<u8>) -> Seq<FileOpView> {
    seq![FileOpView::Write { name: file_name(key), data: value }] + flush_ops(t, key)
}

/// What a read records for the warm tier on disk: the write of what the
/// hot tier evicts where a value is promoted.
pub open spec fn warm_ops_of_get(t: Tiers, key: Seq<u8>) -> Seq<FileOpView> {
    if value_under(t.hot, key) is None && (in_warm(t, key) is Some || in_cold(t, key) is Some) {
        flush_ops(t, key)
    } else {
        Seq::<FileOpView>::empty()
    }
}

/// What taking `key` out of the warm tier records for the disk: the
/// deletion of its file, where the tier has one.
pub open spec fn warm_ops_of_removal(t: Tiers, key: Seq<u8>) -> Seq<FileOpView> {
    if in_warm(t, key) is Some {
        seq![FileOpView::Delete { name: file_name(key) }]
    } else {
        Seq::<FileOpView>::empty()
    }
}

/// What taking `key` out of the cold tier records for the disk.
pub open spec fn cold_ops_of_removal(t: Tiers, key: Seq<u8>) -> Seq<FileOpView> {
    if in_cold(t, key) is Some {
        seq![FileOpView::Delete { name: file_name(key) }]
    } else {
        Seq::<FileOpView>::empty()
    }
}

/// What archiving `key` records for the cold tier on disk: the write of
/// the value that the warm tier had.
pub open spec fn cold_ops_of_archive(t: Tiers, key: Seq<u8>) -> Seq<FileOpView> {
    match in_warm(t, key) {
        Some(value) => seq![FileOpView::Write { name: file_name(key), data: value }],
        None => Seq::<FileOpView>::empty(),
    }
}

/// What archiving the keys in order records for the warm tier on disk.
pub open spec fn warm_ops_of_archive_all(t: Tiers, keys: Seq<Seq<u8>>) -> Seq<FileOpView>
    decreases keys.len(),
{
    if keys.len() == 0 {
        Seq::<FileOpView>::empty()
    } else {
        warm_ops_of_archive_all(t, keys.drop_last()) + warm_ops_of_removal(
            tiers_after_archive_all(t, keys.drop_last()),
            keys.last(),
        )
    }
}

/// What archiving the keys in order records for the cold tier on disk.
pub open spec fn cold_ops_of_archive_all(t: Tiers, keys: Seq<Seq<u8>>) -> Seq<FileOpView>
    decreases keys.len(),
{
    if keys.len() == 0 {
        Seq::<FileOpView>::empty()
    } else {
        cold_ops_of_archive_all(t, keys.drop_last()) + cold_ops_of_archive(
            tiers_after_archive_all(t, keys.drop_last()),
            keys.last(),
        )
    }
}

/// A counter after one more event: it stays at the largest 64-bit number.
pub open spec fn bumped(counter: u64) -> u64 {
    if counter < u64::MAX {
        (counter + 1) as u64
    } else {
        counter
    }
}

/// A counter after one more event if `happened`.
pub open spec fn bumped_if(counter: u64, happened: bool) -> u64 {
    if happened {
        bumped(counter)
    } else {
        counter
    }
}

/// The statistics after a read of `key`.
pub open spec fn stats_after_get(stats: StorageStats, t: Tiers, key: Seq<u8>) -> StorageStats {
    let hot_hit = value_under(t.hot, key) is Some;
    let warm_hit = !hot_hit && in_warm(t, key) is Some;
    let cold_hit = !hot_hit && !warm_hit && in_cold(t, key) is Some;
    StorageStats {
        hot_entries: stats.hot_entries,
        hot_hits: bumped_if(stats.hot_hits, hot_hit),
        hot_misses: bumped_if(stats.hot_misses, !hot_hit),
        warm_hits: bumped_if(stats.warm_hits, warm_hit),
        warm_misses: bumped_if(stats.warm_misses, !hot_hit && !warm_hit),
        cold_hits: bumped_if(stats.cold_hits, cold_hit),
        cold_misses: bumped_if(stats.cold_misses, !hot_hit && !warm_hit && !cold_hit),
        promotions: bumped_if(stats.promotions, warm_hit || cold_hit),
        evictions: bumped_if(stats.evictions, (warm_hit || cold_hit) && evicts(t, key)),
    }
}

fn bump(counter: u64) -> (r: u64)
    ensures
        r == bumped(counter),
{
    counter.saturating_add(1)
}

/// The tiered storage.
pub struct TieredStorage {
    hot: HotCache,
    warm: WarmStore,
    cold: ColdArchive,
    stats: StorageStats,
}

impl TieredStorage {
    /// The hot tier.
    pub closed spec fn hot(self) -> HotCache {
        self.hot
    }

    /// The warm tier.
    pub closed spec fn warm(self) -> WarmStore {
        self.warm
    }

    /// The cold tier.
    pub closed spec fn cold(self) -> ColdArchive {
        self.cold
    }

    /// The counters, without the number of hot entries.
    pub closed spec fn counters(self) -> StorageStats {
        self.stats
    }

    /// What the three tiers hold.
    pub open spec fn tiers(self) -> Tiers {
        Tiers {
            hot: self.hot().entries(),
            capacity: self.hot().spec_capacity(),
            warm: self.warm().files(),
            cold: self.cold().files(),
        }
    }

    pub open spec fn wf(self) -> bool {
        &&& self.hot().wf()
        &&& self.warm().wf()
        &&& self.cold().wf()
    }

    /// A tiered storage for the configuration `config`, with empty tiers.
    pub fn new(config: &StorageConfig) -> (r: StorageResult<Self>)
        requires
            config.lru_capacity > 0,
        ensures
            r matches Ok(storage) && {
                &&& storage.wf()
                &&& storage.tiers() == (Tiers {
                    hot: Seq::<(Seq<u8>, Seq<u8>)>::empty(),
                    capacity: config.lru_capacity as nat,
                    warm: Map::<Seq<u8>, Seq<u8>>::empty(),
                    cold: Map::<Seq<u8>, Seq<u8>>::empty(),
                })
                &&& storage.warm().base() == config.nvme_path@
                &&& storage.cold().base() == config.archive_path@
                &&& storage.counters() == (StorageStats {
                    hot_entries: 0,
                    hot_hits: 0,
                    hot_misses: 0,
                    warm_hits: 0,
                    warm_misses: 0,
                    cold_hits: 0,
                    cold_misses: 0,
                    promotions: 0,
                    evictions: 0,
                })
            },
    {
        let storage = TieredStorage {
            hot: HotCache::new(config.lru_capacity),
            warm: WarmStore::new(config.nvme_path.as_str()),
            cold: ColdArchive::new(config.archive_path.as_str()),
            stats: StorageStats::default(),
        };
        proof {
            assert(storage.tiers().hot =~= Seq::<(Seq<u8>, Seq<u8>)>::empty());
        }
        Ok(storage)
    }

    /// Puts `value` under `key` into the hot tier and flushes what the hot
    /// tier evicts for it to the warm tier. Returns whether an entry was
    /// evicted.
    fn enter_hot(&mut self, key: StorageKey, value: StorageValue) -> (evicted: bool)
        requires
            old(self).wf(),
        ensures
            final(self).wf(),
            final(self).tiers() == entered_hot(old(self).tiers(), key.0@, value.0@),
            evicted == evicts(old(self).tiers(), key.0@),
            final(self).counters() == (StorageStats {
                evictions: bumped_if(old(self).counters().evictions, evicted),
                ..old(self).counters()
            }),
            final(self).warm().base() == old(self).warm().base(),
            final(self).warm().pending() == old(self).warm().pending() + flush_ops(
                old(self).tiers(),
                key.0@,
            ),
            final(self).cold() == old(self).cold(),
    {
        proof {
            assert(old(self).warm().pending() + Seq::<FileOpView>::empty() =~= old(
                self,
            ).warm().pending());
        }
        match self.hot.put(key, value) {
            Some(entry) => {
                let _ = self.warm.put(&entry.0, &entry.1);
                self.stats.evictions = bump(self.stats.evictions);
                proof {
                    assert(self.warm.pending() =~= old(self).warm().pending() + flush_ops(
                        old(self).tiers(),
                        key.0@,
                    ));
                }
                true
            },
            None => false,
        }
    }

    /// Reads `key`, looking through Hot, Warm and Cold in this order. A hit
    /// below the hot tier is promoted to it and stays where it was found.
    pub fn get(&mut self, key: &StorageKey) -> (r: StorageResult<Option<StorageValue>>)
        requires
            old(self).wf(),
        ensures
            final(self).wf(),
            final(self).tiers() == tiers_after_get(old(self).tiers(), key.0@),
            final(self).counters() == stats_after_get(
                old(self).counters(),
                old(self).tiers(),
                key.0@,
            ),
            final(self).warm().pending() == old(self).warm().pending() + warm_ops_of_get(
                old(self).tiers(),
                key.0@,
            ),
            final(self).cold().pending() == old(self).cold().pending(),
            r matches Ok(found) && (match found {
                Some(value) => tiers_lookup(old(self).tiers(), key.0@) == Some(value.0@),
                None => tiers_lookup(old(self).tiers(), key.0@) is None,
            }),
    {
        proof {
            assert(old(self).warm().pending() + Seq::<FileOpView>::empty() =~= old(
                self,
            ).warm().pending());
        }
        match self.hot.get(key) {
            Some(value) => {
                self.stats.hot_hits = bump(self.stats.hot_hits);
                return Ok(Some(value));
            },
            None => {},
        }
        self.stats.hot_misses = bump(self.stats.hot_misses);
        proof {
            assert(!holds_key(old(self).tiers().hot, key.0@));
        }
        match self.warm.get(key) {
            Ok(Some(value)) => {
                self.stats.warm_hits = bump(self.stats.warm_hits);
                self.enter_hot(key.duplicate(), value.duplicate());
                self.stats.promotions = bump(self.stats.promotions);
                return Ok(Some(value));
            },
            _ => {
                self.stats.warm_misses = bump(self.stats.warm_misses);
            },
        }
        match self.cold.retrieve(key) {
            Ok(Some(value)) => {
                self.stats.cold_hits = bump(self.stats.cold_hits);
                self.enter_hot(key.duplicate(), value.duplicate());
                self.stats.promotions = bump(self.stats.promotions);
                Ok(Some(value))
            },
            _ => {
                self.stats.cold_misses = bump(self.stats.cold_misses);
                Ok(None)
            },
        }
    }

    /// Writes `value` under `key`: through to the warm tier, for
    /// durability, and into the hot tier. Putting a key that the hot tier
    /// holds evicts nothing.
    pub fn put(&mut self, key: StorageKey, value: StorageValue) -> (r: StorageResult<()>)
        requires
            old(self).wf(),
        ensures
            r is Ok,
            final(self).wf(),
            final(self).tiers() == tiers_after_put(old(self).tiers(), key.0@, value.0@),
            final(self).counters() == (StorageStats {
                evictions: bumped_if(
                    old(self).counters().evictions,
                    evicts(old(self).tiers(), key.0@),
                ),
                ..old(self).counters()
            }),
            final(self).warm().pending() == old(self).warm().pending() + warm_ops_of_put(
                old(self).tiers(),
                key.0@,
                value.0@,
            ),
            final(self).cold().pending() == old(self).cold().pending(),
            tiers_lookup(final(self).tiers(), key.0@) == Some(value.0@),
    {
        let _ = self.warm.put(&key, &value);
        proof {
            lemma_after_put_distinct(
                old(self).tiers().hot,
                old(self).tiers().capacity,
                key.0@,
                value.0@,
            );
        }
        let ghost written = self.warm.pending();
        let ghost flushed = flush_ops(self.tiers(), key.0@);
        self.enter_hot(key, value);
        proof {
            assert(flushed == flush_ops(old(self).tiers(), key.0@));
            assert(written + flushed =~= old(self).warm().pending() + warm_ops_of_put(
                old(self).tiers(),
                key.0@,
                value.0@,
            ));
        }
        Ok(())
    }

    /// Removes `key` from all tiers and returns the first value found,
    /// looking through Hot, Warm and Cold.
    pub fn remove(&mut self, key: &StorageKey) -> (r: StorageResult<Option<StorageValue>>)
        requires
            old(self).wf(),
        ensures
            final(self).wf(),
            final(self).tiers() == tiers_after_remove(old(self).tiers(), key.0@),
            final(self).counters() == old(self).counters(),
            r matches Ok(found) && (match found {
                Some(value) => tiers_lookup(old(self).tiers(), key.0@) == Some(value.0@),
                None => tiers_lookup(old(self).tiers(), key.0@) is None,
            }),
            tiers_locate(final(self).tiers(), key.0@) is None,
            final(self).warm().pending() == old(self).warm().pending() + warm_ops_of_removal(
                old(self).tiers(),
                key.0@,
            ),
            final(self).cold().pending() == old(self).cold().pending() + cold_ops_of_removal(
                old(self).tiers(),
                key.0@,
            ),
    {
        proof {
            assert(old(self).warm().pending() + Seq::<FileOpView>::empty() =~= old(
                self,
            ).warm().pending());
            assert(old(self).cold().pending() + Seq::<FileOpView>::empty() =~= old(
                self,
            ).cold().pending());
            assert(old(self).warm().pending() + seq![
                FileOpView::Delete { name: file_name(key.0@) },
            ] =~= old(self).warm().pending().push(FileOpView::Delete { name: file_name(key.0@) }));
            assert(old(self).cold().pending() + seq![
                FileOpView::Delete { name: file_name(key.0@) },
            ] =~= old(self).cold().pending().push(FileOpView::Delete { name: file_name(key.0@) }));
        }
        let hot_value = self.hot.remove(key);
        let warm_value = match self.warm.remove(key) {
            Ok(found) => found,
            Err(_) => None,
        };
        let cold_value = match self.cold.remove(key) {
            Ok(found) => found,
            Err(_) => None,
        };
        let found = match hot_value {
            Some(value) => Some(value),
            None => match warm_value {
                Some(value) => Some(value),
                None => cold_value,
            },
        };
        Ok(found)
    }

    /// Moves `key` from the warm tier to the cold tier. Returns whether the
    /// warm tier had it.
    pub fn archive_key(&mut self, key: &StorageKey) -> (r: StorageResult<bool>)
        requires
            old(self).wf(),
        ensures
            final(self).wf(),
            final(self).tiers() == tiers_after_archive(old(self).tiers(), key.0@),
            final(self).counters() == old(self).counters(),
            r == Ok::<bool, StorageError>(in_warm(old(self).tiers(), key.0@) is Some),
            final(self).hot() == old(self).hot(),
            final(self).warm().pending() == old(self).warm().pending() + warm_ops_of_removal(
                old(self).tiers(),
                key.0@,
            ),
            final(self).cold().pending() == old(self).cold().pending() + cold_ops_of_archive(
                old(self).tiers(),
                key.0@,
            ),
    {
        proof {
            assert(old(self).warm().pending() + Seq::<FileOpView>::empty() =~= old(
                self,
            ).warm().pending());
            assert(old(self).cold().pending() + Seq::<FileOpView>::empty() =~= old(
                self,
            ).cold().pending());
            assert(old(self).warm().pending() + seq![
                FileOpView::Delete { name: file_name(key.0@) },
            ] =~= old(self).warm().pending().push(FileOpView::Delete { name: file_name(key.0@) }));
            if in_warm(old(self).tiers(), key.0@) is Some {
                let value = in_warm(old(self).tiers(), key.0@)->Some_0;
                assert(old(self).cold().pending() + seq![
                    FileOpView::Write { name: file_name(key.0@), data: value },
                ] =~= old(self).cold().pending().push(
                    FileOpView::Write { name: file_name(key.0@), data: value },
                ));
            }
        }
        match self.warm.remove(key) {
            Ok(Some(value)) => {
                let _ = self.cold.archive(key, &value);
                Ok(true)
            },
            _ => {
                proof {
                    assert(self.warm.files() =~= old(self).warm().files());
                }
                Ok(false)
            },
        }
    }

    /// For each key in order: evicts it from the hot tier, then moves it
    /// from the warm tier to the cold tier. Returns how many keys the warm
    /// tier had.
    pub fn archive_keys(&mut self, keys: &[StorageKey]) -> (r: StorageResult<u64>)
        requires
            old(self).wf(),
        ensures
            final(self).wf(),
            final(self).counters() == old(self).counters(),
            final(self).tiers() == tiers_after_archive_all(old(self).tiers(), key_views(keys@)),
            r == Ok::<u64, StorageError>(
                archived_count(old(self).tiers(), key_views(keys@)) as u64,
            ),
            final(self).warm().pending() == old(self).warm().pending() + warm_ops_of_archive_all(
                old(self).tiers(),
                key_views(keys@),
            ),
            final(self).cold().pending() == old(self).cold().pending() + cold_ops_of_archive_all(
                old(self).tiers(),
                key_views(keys@),
            ),
    {
        let ghost start = self.tiers();
        let ghost warm_start = self.warm.pending();
        let ghost cold_start = self.cold.pending();
        proof {
            assert(warm_start + Seq::<FileOpView>::empty() =~= warm_start);
            assert(cold_start + Seq::<FileOpView>::empty() =~= cold_start);
        }
        let ghost all = key_views(keys@);
        let mut count: u64 = 0;
        let mut i: usize = 0;
        proof {
            assert(all.subrange(0, 0) =~= Seq::<Seq<u8>>::empty());
        }
        while i < keys.len()
            invariant
                i <= keys@.len(),
                all == key_views(keys@),
                self.wf(),
                self.counters() == old(self).counters(),
                self.tiers() == tiers_after_archive_all(start, all.subrange(0, i as int)),
                count == archived_count(start, all.subrange(0, i as int)),
                count <= i,
                self.warm().pending() == warm_start + warm_ops_of_archive_all(
                    start,
                    all.subrange(0, i as int),
                ),
                self.cold().pending() == cold_start + cold_ops_of_archive_all(
                    start,
                    all.subrange(0, i as int),
                ),
            decreases keys@.len() - i,
        {
            let ghost warm_before = self.warm.pending();
            let ghost cold_before = self.cold.pending();
            let ghost done = all.subrange(0, i as int);
            proof {
                assert(all.subrange(0, i + 1).drop_last() =~= all.subrange(0, i as int));
                assert(all.subrange(0, i + 1).last() == keys@[i as int].0@);
            }
            let key = &keys[i];
            self.hot.remove(key);
            match self.archive_key(key) {
                Ok(true) => {
                    count = count + 1;
                },
                _ => {},
            }
            proof {
                let now = all.subrange(0, i + 1);
                let before = tiers_after_archive_all(start, done);
                let evicted = Tiers { hot: after_removal(before.hot, keys@[i as int].0@), ..before };
                assert(warm_ops_of_removal(evicted, now.last()) == warm_ops_of_removal(
                    before,
                    now.last(),
                ));
                assert(cold_ops_of_archive(evicted, now.last()) == cold_ops_of_archive(
                    before,
                    now.last(),
                ));
                assert(self.warm().pending() =~= warm_start + warm_ops_of_archive_all(start, now));
                assert(self.cold().pending() =~= cold_start + cold_ops_of_archive_all(start, now));
            }
            i += 1;
        }
        proof {
            assert(all.subrange(0, i as int) =~= all);
        }
        Ok(count)
    }

    /// The first tier that has `key`, looking through Hot, Warm and Cold.
    pub fn locate(&self, key: &StorageKey) -> (r: Option<StorageTier>)
        requires
            self.wf(),
        ensures
            r == tiers_locate(self.tiers(), key.0@),
    {
        if self.hot.contains(key) {
            return Some(StorageTier::Hot);
        }
        if self.warm.contains(key) {
            return Some(StorageTier::Warm);
        }
        if self.cold.contains(key) {
            return Some(StorageTier::Cold);
        }
        None
    }

    /// The statistics, with the current number of hot entries.
    pub fn stats(&self) -> (stats: StorageStats)
        ensures
            stats == (StorageStats {
                hot_entries: self.tiers().hot.len() as usize,
                ..self.counters()
            }),
    {
        let mut stats = self.stats;
        stats.hot_entries = self.hot.len();
        stats
    }

    /// The hot tier.
    pub fn hot_cache(&self) -> (cache: &HotCache)
        ensures
            *cache == self.hot(),
    {
        &self.hot
    }

    /// The hot tier, to be changed in place.
    pub fn hot_cache_mut(&mut self) -> (cache: &mut HotCache)
        ensures
            *cache == old(self).hot(),
            final(self).hot() == *final(cache),
            final(self).warm() == old(self).warm(),
            final(self).cold() == old(self).cold(),
            final(self).counters() == old(self).counters(),
    {
        &mut self.hot
    }

    /// The warm tier, to be changed in place: to take in what was found on
    /// disk, and to hand out what is to be written there.
    pub fn warm_store_mut(&mut self) -> (store: &mut WarmStore)
        ensures
            *store == old(self).warm(),
            final(self).warm() == *final(store),
            final(self).hot() == old(self).hot(),
            final(self).cold() == old(self).cold(),
            final(self).counters() == old(self).counters(),
    {
        &mut self.warm
    }

    /// The cold tier, to be changed in place.
    pub fn cold_archive_mut(&mut self) -> (archive: &mut ColdArchive)
        ensures
            *archive == old(self).cold(),
            final(self).cold() == *final(archive),
            final(self).hot() == old(self).hot(),
            final(self).warm() == old(self).warm(),
            final(self).counters() == old(self).counters(),
    {
        &mut self.cold
    }
}

/// The bytes of each key of a sequence.
pub open spec fn key_views(keys: Seq<StorageKey>) -> Seq<Seq<u8>> {
    Seq::new(keys.len(), |i: int| keys[i].0@)
}

/// A value that was put is the value that a read finds.
pub proof fn law_put_then_get(t: Tiers, key: Seq<u8>, value: Seq<u8>)
    requires
        tiers_wf(t),
    ensures
        tiers_lookup(tiers_after_put(t, key, value), key) == Some(value),
        tiers_locate(tiers_after_put(t, key, value), key) == Some(StorageTier::Hot),
        tiers_wf(tiers_after_put(t, key, value)),
{
    lemma_after_put_distinct(t.hot, t.capacity, key, value);
}

/// A key that the warm tier has, and the hot tier has not, lies in the cold
/// tier after it was archived.
pub proof fn law_archive_then_locate(t: Tiers, key: Seq<u8>)
    requires
        !holds_key(t.hot, key),
        in_warm(t, key) is Some,
    ensures
        tiers_locate(tiers_after_archive(t, key), key) == Some(StorageTier::Cold),
        in_cold(tiers_after_archive(t, key), key) == in_warm(t, key),
{
}

/// A put into a full hot tier under a new key evicts exactly one entry, the
/// least recently used one, and flushes it to the warm tier; the hot tier
/// stays full. A put under a key that the hot tier holds evicts nothing.
pub proof fn law_eviction_takes_least_recent(t: Tiers, key: Seq<u8>, value: Seq<u8>)
    requires
        tiers_wf(t),
    ensures
        evicts(t, key) ==> {
            let after = entered_hot(t, key, value);
            &&& after.hot == t.hot.drop_first().push((key, value))
            &&& after.hot.len() == t.capacity
            &&& !holds_key(after.hot, t.hot[0].0) || t.hot[0].0 == key
            &&& after.warm.dom().contains(file_name(t.hot[0].0))
            &&& after.warm[file_name(t.hot[0].0)] == t.hot[0].1
        },
        !evicts(t, key) ==> entered_hot(t, key, value).warm == t.warm,
        holds_key(t.hot, key) ==> entered_hot(t, key, value).hot.len() == t.hot.len(),
{
    if evicts(t, key) {
        let after = entered_hot(t, key, value);
        if holds_key(after.hot, t.hot[0].0) {
            let i = position_of(after.hot, t.hot[0].0);
            if i < after.hot.len() - 1 {
                assert(after.hot[i] == t.hot[i + 1]);
                assert(t.hot[0].0 != t.hot[i + 1].0);
            }
        }
    }
}

} // verus!
