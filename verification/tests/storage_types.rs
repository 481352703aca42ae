use trv1::storage::types::{StorageConfig, StorageKey, StorageTier, StorageValue};

#[test]
fn storage_key_from_str() {
    let key = StorageKey::from("hello");
    assert_eq!(key.as_bytes(), b"hello");
}

#[test]
fn storage_value_len() {
    let val = StorageValue::new(vec![1, 2, 3]);
    assert_eq!(val.len(), 3);
    assert!(!val.is_empty());
}

#[test]
fn default_config_is_sane() {
    let cfg = StorageConfig::default();
    assert_eq!(cfg.lru_capacity, 10_000);
    assert!(cfg.max_ram_bytes > 0);
}

#[test]
fn tier_display() {
    assert_eq!(StorageTier::Hot.to_string(), "Hot");
    assert_eq!(StorageTier::Warm.to_string(), "Warm");
    assert_eq!(StorageTier::Cold.to_string(), "Cold");
}

#[test]
fn storage_key_display_hex() {
    let key = StorageKey::new(vec![0xde, 0xad, 0xbe, 0xef]);
    assert_eq!(key.to_string(), "0xdeadbeef");
}

#[test]
fn storage_values_from_bytes_and_text() {
    let value = StorageValue::from("abc");
    assert_eq!(value.as_bytes(), b"abc");
    assert_eq!(StorageValue::from(vec![1u8, 2]), StorageValue::new(vec![1, 2]));
    assert_eq!(StorageKey::from(&b"xy"[..]), StorageKey::new(vec![b'x', b'y']));
    assert!(StorageValue::new(vec![]).is_empty());
    assert_eq!(StorageKey::new(vec![]).to_string(), "0x");
    let cfg = StorageConfig::default();
    assert_eq!(cfg.nvme_path, "/tmp/trv1-warm");
    assert_eq!(cfg.archive_path, "/tmp/trv1-cold");
    assert_eq!(cfg.max_ram_bytes, 512 * 1024 * 1024);
}
