use trv1::storage::lru_cache::HotCache;
use trv1::storage::types::{StorageKey, StorageValue};

#[test]
fn lru_cache_basic_put_get() {
    let mut cache = HotCache::new(10);
    let key = StorageKey::from("key1");
    let val = StorageValue::from("value1");
    cache.put(key.clone(), val.clone());
    assert_eq!(cache.get(&key), Some(val));
}

#[test]
fn returns_none_for_missing_key() {
    let mut cache = HotCache::new(10);
    assert_eq!(cache.get(&StorageKey::from("absent")), None);
}

#[test]
fn remove_returns_value() {
    let mut cache = HotCache::new(10);
    let key = StorageKey::from("k");
    cache.put(key.clone(), StorageValue::from("v"));
    let removed = cache.remove(&key);
    assert!(removed.is_some());
    assert_eq!(cache.get(&key), None);
}

#[test]
fn lru_eviction_at_capacity() {
    let mut cache = HotCache::new(2);
    cache.put(StorageKey::from("a"), StorageValue::from("1"));
    cache.put(StorageKey::from("b"), StorageValue::from("2"));
    // "a" is LRU. Inserting "c" should evict "a".
    cache.put(StorageKey::from("c"), StorageValue::from("3"));

    assert_eq!(cache.get(&StorageKey::from("a")), None); // evicted
    assert!(cache.get(&StorageKey::from("b")).is_some());
    assert!(cache.get(&StorageKey::from("c")).is_some());
    assert_eq!(cache.len(), 2);
}

#[test]
fn eviction_callback_is_called() {
    let mut evict_count = 0;

    let mut cache = HotCache::new(2);
    if cache.put(StorageKey::from("a"), StorageValue::from("1")).is_some() {
        evict_count += 1;
    }
    if cache.put(StorageKey::from("b"), StorageValue::from("2")).is_some() {
        evict_count += 1;
    }
    // evicts "a"
    if cache.put(StorageKey::from("c"), StorageValue::from("3")).is_some() {
        evict_count += 1;
    }

    assert_eq!(evict_count, 1);
}

#[test]
fn access_promotes_entry() {
    let mut cache = HotCache::new(2);
    cache.put(StorageKey::from("a"), StorageValue::from("1"));
    cache.put(StorageKey::from("b"), StorageValue::from("2"));

    // Access "a" — now "b" is LRU.
    cache.get(&StorageKey::from("a"));

    // Inserting "c" should evict "b" (the LRU), not "a".
    cache.put(StorageKey::from("c"), StorageValue::from("3"));
    assert!(cache.get(&StorageKey::from("a")).is_some());
    assert_eq!(cache.get(&StorageKey::from("b")), None);
}

#[test]
fn overwrite_does_not_evict() {
    let mut evict_count = 0;

    let mut cache = HotCache::new(2);
    if cache.put(StorageKey::from("a"), StorageValue::from("1")).is_some() {
        evict_count += 1;
    }
    if cache.put(StorageKey::from("b"), StorageValue::from("2")).is_some() {
        evict_count += 1;
    }
    // Overwrite existing key "a" — should NOT trigger eviction.
    if cache.put(StorageKey::from("a"), StorageValue::from("updated")).is_some() {
        evict_count += 1;
    }

    assert_eq!(evict_count, 0);
    assert_eq!(cache.get(&StorageKey::from("a")), Some(StorageValue::from("updated")));
}

#[test]
fn contains_and_len() {
    let mut cache = HotCache::new(10);
    assert!(cache.is_empty());

    cache.put(StorageKey::from("x"), StorageValue::from("y"));
    assert!(cache.contains(&StorageKey::from("x")));
    assert!(!cache.contains(&StorageKey::from("z")));
    assert_eq!(cache.len(), 1);
}

// Each insertion beyond the capacity evicts exactly one entry: the one
// that was used least recently.
#[test]
fn evicts_one_least_recent_entry_per_insertion() {
    let capacity = 4;
    let mut cache = HotCache::new(capacity);
    let mut order: Vec<u8> = Vec::new();
    for k in 0..20u8 {
        let evicted = cache.put(StorageKey::new(vec![k]), StorageValue::new(vec![k, k]));
        if order.len() < capacity {
            assert_eq!(evicted, None);
        } else {
            let oldest = order.remove(0);
            assert_eq!(
                evicted,
                Some((StorageKey::new(vec![oldest]), StorageValue::new(vec![oldest, oldest])))
            );
        }
        order.push(k);
        assert!(cache.len() <= capacity);
        // Use the oldest entry now and then, so that it becomes the newest.
        if k % 3 == 0 && order.len() > 1 {
            let first = order.remove(0);
            assert!(cache.get(&StorageKey::new(vec![first])).is_some());
            order.push(first);
        }
    }
    assert_eq!(cache.capacity(), capacity);
}

#[test]
fn contains_does_not_promote() {
    let mut cache = HotCache::new(2);
    cache.put(StorageKey::from("a"), StorageValue::from("1"));
    cache.put(StorageKey::from("b"), StorageValue::from("2"));
    assert!(cache.contains(&StorageKey::from("a")));
    let evicted = cache.put(StorageKey::from("c"), StorageValue::from("3"));
    assert_eq!(evicted, Some((StorageKey::from("a"), StorageValue::from("1"))));
}
