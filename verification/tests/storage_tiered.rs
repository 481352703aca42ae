use trv1::storage::archive::ColdArchive;
use trv1::storage::layout::{hash_key, key_path, shard_and_file, FileOp};
use trv1::storage::nvme::WarmStore;
use trv1::storage::tiered::TieredStorage;
use trv1::storage::types::{StorageConfig, StorageKey, StorageTier, StorageValue};

fn test_config(name: &str) -> StorageConfig {
    StorageConfig {
        lru_capacity: 3,
        nvme_path: format!("/tmp/trv1_tiered_warm_{name}"),
        archive_path: format!("/tmp/trv1_tiered_cold_{name}"),
        max_ram_bytes: 1024,
    }
}

#[test]
fn tiered_basic_put_get() {
    let cfg = test_config("basic");
    let mut ts = TieredStorage::new(&cfg).unwrap();

    ts.put(StorageKey::from("k1"), StorageValue::from("v1")).unwrap();
    let got = ts.get(&StorageKey::from("k1")).unwrap();
    assert_eq!(got, Some(StorageValue::from("v1")));
}

#[test]
fn tiered_get_missing_returns_none() {
    let cfg = test_config("miss");
    let mut ts = TieredStorage::new(&cfg).unwrap();

    assert_eq!(ts.get(&StorageKey::from("nope")).unwrap(), None);
}

#[test]
fn hot_eviction_flushes_to_warm() {
    let cfg = test_config("evict");
    let mut ts = TieredStorage::new(&cfg).unwrap();

    // Capacity is 3 — insert 4 entries to trigger eviction.
    ts.put(StorageKey::from("a"), StorageValue::from("1")).unwrap();
    ts.put(StorageKey::from("b"), StorageValue::from("2")).unwrap();
    ts.put(StorageKey::from("c"), StorageValue::from("3")).unwrap();
    ts.put(StorageKey::from("d"), StorageValue::from("4")).unwrap();

    // "a" should have been evicted from hot to warm.
    let val = ts.get(&StorageKey::from("a")).unwrap();
    assert_eq!(val, Some(StorageValue::from("1")));

    let stats = ts.stats();
    assert!(stats.evictions >= 1, "expected at least 1 eviction");
}

#[test]
fn warm_promotion_to_hot() {
    let cfg = test_config("promote");
    let mut ts = TieredStorage::new(&cfg).unwrap();

    ts.put(StorageKey::from("a"), StorageValue::from("1")).unwrap();
    ts.put(StorageKey::from("b"), StorageValue::from("2")).unwrap();
    ts.put(StorageKey::from("c"), StorageValue::from("3")).unwrap();
    ts.put(StorageKey::from("d"), StorageValue::from("4")).unwrap();

    // "a" was evicted from hot but exists in warm. Getting it promotes back.
    let _ = ts.get(&StorageKey::from("a")).unwrap();

    // After promotion, "a" should be in hot tier.
    assert_eq!(ts.locate(&StorageKey::from("a")), Some(StorageTier::Hot));

    let stats = ts.stats();
    assert!(stats.promotions >= 1);
}

#[test]
fn archive_moves_to_cold() {
    let cfg = test_config("archive");
    let mut ts = TieredStorage::new(&cfg).unwrap();

    let key = StorageKey::from("old_block");
    ts.put(key.clone(), StorageValue::from("historical")).unwrap();

    // Remove from hot so we're only testing warm -> cold.
    ts.hot_cache_mut().remove(&key);

    // Archive the key (warm -> cold).
    let moved = ts.archive_key(&key).unwrap();
    assert!(moved);

    // It should now be in cold.
    assert_eq!(ts.locate(&key), Some(StorageTier::Cold));

    // And still retrievable (from cold, with promotion).
    let val = ts.get(&key).unwrap();
    assert_eq!(val, Some(StorageValue::from("historical")));
}

#[test]
fn remove_from_all_tiers() {
    let cfg = test_config("remove_all");
    let mut ts = TieredStorage::new(&cfg).unwrap();

    let key = StorageKey::from("temp");
    ts.put(key.clone(), StorageValue::from("data")).unwrap();

    let removed = ts.remove(&key).unwrap();
    assert!(removed.is_some());

    // Confirm gone from everywhere.
    assert_eq!(ts.get(&key).unwrap(), None);
    assert_eq!(ts.locate(&key), None);
}

#[test]
fn stats_tracking() {
    let cfg = test_config("stats");
    let mut ts = TieredStorage::new(&cfg).unwrap();

    ts.put(StorageKey::from("x"), StorageValue::from("y")).unwrap();
    ts.get(&StorageKey::from("x")).unwrap(); // hot hit
    ts.get(&StorageKey::from("missing")).unwrap(); // miss all tiers

    let stats = ts.stats();
    assert_eq!(stats.hot_hits, 1);
    assert!(stats.hot_misses >= 1);
    assert_eq!(stats.hot_entries, 1);
}

#[test]
fn archive_multiple_keys() {
    let cfg = test_config("multi_archive");
    let mut ts = TieredStorage::new(&cfg).unwrap();

    let keys: Vec<StorageKey> =
        (0..3).map(|i| StorageKey::from(format!("block_{i}").as_str())).collect();

    for (i, key) in keys.iter().enumerate() {
        ts.put(key.clone(), StorageValue::new(format!("data_{i}").into_bytes())).unwrap();
    }

    let archived = ts.archive_keys(&keys).unwrap();
    assert_eq!(archived, 3);

    // All should be retrievable from cold.
    for key in &keys {
        assert!(ts.get(key).unwrap().is_some());
    }
}

#[test]
fn archive_and_retrieve() {
    let mut archive = ColdArchive::new("/tmp/trv1_cold_test_archive_rt");
    let key = StorageKey::from("old_block");
    let val = StorageValue::from("ancient_data");

    archive.archive(&key, &val).unwrap();
    let got = archive.retrieve(&key).unwrap();
    assert_eq!(got, Some(val));
}

#[test]
fn remove_from_archive() {
    let mut archive = ColdArchive::new("/tmp/trv1_cold_test_cold_remove");
    let key = StorageKey::from("del");
    let val = StorageValue::from("gone");

    archive.archive(&key, &val).unwrap();
    let removed = archive.remove(&key).unwrap();
    assert_eq!(removed, Some(val));
    assert_eq!(archive.retrieve(&key).unwrap(), None);
}

#[test]
fn archive_contains_check() {
    let mut archive = ColdArchive::new("/tmp/trv1_cold_test_cold_contains");
    let key = StorageKey::from("exists");
    assert!(!archive.contains(&key));

    archive.archive(&key, &StorageValue::from("yes")).unwrap();
    assert!(archive.contains(&key));
}

#[test]
fn retrieve_missing_returns_none() {
    let archive = ColdArchive::new("/tmp/trv1_cold_test_cold_missing");
    assert_eq!(archive.retrieve(&StorageKey::from("nope")).unwrap(), None);
}

#[test]
fn roundtrip_put_get() {
    let mut store = WarmStore::new("/tmp/trv1_warm_test_roundtrip");
    let key = StorageKey::from("block_42");
    let val = StorageValue::from("data_here");

    store.put(&key, &val).unwrap();
    let got = store.get(&key).unwrap();
    assert_eq!(got, Some(val));
}

#[test]
fn nvme_get_missing_returns_none() {
    let store = WarmStore::new("/tmp/trv1_warm_test_missing");
    assert_eq!(store.get(&StorageKey::from("nope")).unwrap(), None);
}

#[test]
fn remove_returns_old_value() {
    let mut store = WarmStore::new("/tmp/trv1_warm_test_remove");
    let key = StorageKey::from("k");
    let val = StorageValue::from("v");
    store.put(&key, &val).unwrap();
    assert_eq!(store.remove(&key).unwrap(), Some(val));
    assert_eq!(store.get(&key).unwrap(), None);
    assert_eq!(store.remove(&key).unwrap(), None);
}

#[test]
fn overwrite_value() {
    let mut store = WarmStore::new("/tmp/trv1_warm_test_overwrite");
    let key = StorageKey::from("k");
    store.put(&key, &StorageValue::from("old")).unwrap();
    store.put(&key, &StorageValue::from("new")).unwrap();
    assert_eq!(store.get(&key).unwrap(), Some(StorageValue::from("new")));
}

#[test]
fn nvme_contains_check() {
    let mut store = WarmStore::new("/tmp/trv1_warm_test_contains");
    let key = StorageKey::from("exists");
    assert!(!store.contains(&key));
    store.put(&key, &StorageValue::from("yes")).unwrap();
    assert!(store.contains(&key));
}

// Hot capacity 3: a, b, c, then d. Entry a is evicted and flushed to the
// warm tier; reading a promotes it again and evicts b.
#[test]
fn tiered_eviction_scenario() {
    let cfg = test_config("scenario");
    let mut ts = TieredStorage::new(&cfg).unwrap();
    for (k, v) in [("a", "1"), ("b", "2"), ("c", "3"), ("d", "4")] {
        ts.put(StorageKey::from(k), StorageValue::from(v)).unwrap();
    }
    assert_eq!(ts.locate(&StorageKey::from("a")), Some(StorageTier::Warm));
    assert_eq!(ts.stats().evictions, 1);
    assert_eq!(ts.stats().hot_entries, 3);
    assert_eq!(ts.get(&StorageKey::from("a")).unwrap(), Some(StorageValue::from("1")));
    assert_eq!(ts.locate(&StorageKey::from("a")), Some(StorageTier::Hot));
    assert_eq!(ts.locate(&StorageKey::from("b")), Some(StorageTier::Warm));
    assert_eq!(ts.locate(&StorageKey::from("c")), Some(StorageTier::Hot));
    let stats = ts.stats();
    assert_eq!(stats.evictions, 2);
    assert_eq!(stats.promotions, 1);
    assert_eq!(stats.warm_hits, 1);
    assert_eq!(stats.hot_misses, 1);
    assert_eq!(stats.hot_hits, 0);
}

#[test]
fn put_then_get_and_archive_then_locate() {
    let cfg = test_config("laws");
    let mut ts = TieredStorage::new(&cfg).unwrap();
    let key = StorageKey::from("k");
    ts.put(key.clone(), StorageValue::from("v")).unwrap();
    assert_eq!(ts.get(&key).unwrap(), Some(StorageValue::from("v")));
    // The key is in the hot tier still: the first tier that has it is Hot.
    assert!(ts.archive_key(&key).unwrap());
    assert_eq!(ts.locate(&key), Some(StorageTier::Hot));
    // Archived again there is nothing left in the warm tier.
    assert!(!ts.archive_key(&key).unwrap());
    assert_eq!(ts.archive_keys(&[key.clone()]).unwrap(), 0);
    assert_eq!(ts.locate(&key), Some(StorageTier::Cold));
    assert_eq!(ts.remove(&key).unwrap(), Some(StorageValue::from("v")));
    assert_eq!(ts.locate(&key), None);
    assert!(ts.hot_cache().is_empty());
}

#[test]
fn key_layout_on_disk() {
    // SHA-256 of "abc"
    let digest = "ba7816bf8f01cfea414140de5dae2223b00361a396177a9cb410ff61f20015ad";
    let key = StorageKey::from("abc");
    assert_eq!(hash_key(&key), digest);
    assert_eq!(key_path("/data/warm", &key), format!("/data/warm/ba/{}", &digest[2..]));
    let mut name = [0u8; 32];
    name[0] = 0x0f;
    name[31] = 0xa0;
    let (shard, file) = shard_and_file(&name);
    assert_eq!(shard, "0f");
    assert_eq!(file.len(), 62);
    assert!(file.ends_with("a0"));
}

#[test]
fn tiers_note_what_is_to_be_done_on_disk() {
    let cfg = test_config("pending");
    let mut ts = TieredStorage::new(&cfg).unwrap();
    let key = StorageKey::from("abc");
    ts.put(key.clone(), StorageValue::from("v")).unwrap();
    ts.hot_cache_mut().remove(&key);
    ts.archive_key(&key).unwrap();
    let name: [u8; 32] = [
        0xba, 0x78, 0x16, 0xbf, 0x8f, 0x01, 0xcf, 0xea, 0x41, 0x41, 0x40, 0xde, 0x5d, 0xae, 0x22,
        0x23, 0xb0, 0x03, 0x61, 0xa3, 0x96, 0x17, 0x7a, 0x9c, 0xb4, 0x10, 0xff, 0x61, 0xf2, 0x00,
        0x15, 0xad,
    ];
    let warm_ops = ts.warm_store_mut().take_pending();
    assert_eq!(
        warm_ops,
        vec![FileOp::Write { name, data: b"v".to_vec() }, FileOp::Delete { name }]
    );
    assert!(ts.warm_store_mut().take_pending().is_empty());
    assert_eq!(ts.warm_store_mut().base_dir(), "/tmp/trv1_tiered_warm_pending");
    let cold_ops = ts.cold_archive_mut().take_pending();
    assert_eq!(cold_ops, vec![FileOp::Write { name, data: b"v".to_vec() }]);
    // A file found on disk is taken in without being noted.
    let mut other = [7u8; 32];
    other[0] = 1;
    ts.cold_archive_mut().load(other, vec![1, 2, 3]);
    assert!(ts.cold_archive_mut().take_pending().is_empty());
}

#[test]
fn every_operation_notes_its_writes_and_deletions() {
    let mut cfg = test_config("journal");
    cfg.lru_capacity = 1;
    let mut ts = TieredStorage::new(&cfg).unwrap();
    let a = StorageKey::from("a");
    let b = StorageKey::from("b");
    let name_a = trv1::storage::layout::name_of(&a);
    let name_b = trv1::storage::layout::name_of(&b);

    // A put writes through; the put that evicts also flushes the evicted entry.
    ts.put(a.clone(), StorageValue::from("1")).unwrap();
    assert_eq!(
        ts.warm_store_mut().take_pending(),
        vec![FileOp::Write { name: name_a, data: b"1".to_vec() }]
    );
    ts.put(b.clone(), StorageValue::from("2")).unwrap();
    assert_eq!(
        ts.warm_store_mut().take_pending(),
        vec![
            FileOp::Write { name: name_b, data: b"2".to_vec() },
            FileOp::Write { name: name_a, data: b"1".to_vec() },
        ]
    );
    assert!(ts.cold_archive_mut().take_pending().is_empty());

    // A read that promotes flushes what it evicts; a hit in Hot notes nothing.
    assert_eq!(ts.get(&a).unwrap(), Some(StorageValue::from("1")));
    assert_eq!(
        ts.warm_store_mut().take_pending(),
        vec![FileOp::Write { name: name_b, data: b"2".to_vec() }]
    );
    assert_eq!(ts.get(&a).unwrap(), Some(StorageValue::from("1")));
    assert!(ts.warm_store_mut().take_pending().is_empty());
    assert!(ts.cold_archive_mut().take_pending().is_empty());

    // Archiving deletes in Warm and writes in Cold.
    assert_eq!(ts.archive_keys(&[b.clone(), StorageKey::from("none")]).unwrap(), 1);
    assert_eq!(ts.warm_store_mut().take_pending(), vec![FileOp::Delete { name: name_b }]);
    assert_eq!(
        ts.cold_archive_mut().take_pending(),
        vec![FileOp::Write { name: name_b, data: b"2".to_vec() }]
    );

    // A removal deletes wherever the key was.
    assert_eq!(ts.remove(&b).unwrap(), Some(StorageValue::from("2")));
    assert!(ts.warm_store_mut().take_pending().is_empty());
    assert_eq!(ts.cold_archive_mut().take_pending(), vec![FileOp::Delete { name: name_b }]);
    assert_eq!(ts.remove(&a).unwrap(), Some(StorageValue::from("1")));
    assert_eq!(ts.warm_store_mut().take_pending(), vec![FileOp::Delete { name: name_a }]);
    assert!(ts.cold_archive_mut().take_pending().is_empty());
}
