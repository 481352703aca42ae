//! Keys, values, tiers, statistics and errors of the storage engine.

use vstd::prelude::*;
use vstd::slice::slice_to_vec;
use vstd::string::StringExecFns;
use vstd::string::StringSliceAdditionalSpecFns;
use crate::crypto::{hex_encode, hex_text};

verus! {

/// An opaque storage key: a byte string.
#[derive(Clone, Debug, PartialEq, Eq, Hash)]
pub struct StorageKey(pub Vec<u8>);

impl StorageKey {
    pub fn new(bytes: Vec<u8>) -> (key: Self)
        ensures
            key.0 == bytes,
    {
        StorageKey(bytes)
    }

    pub fn as_bytes(&self) -> (bytes: &[u8])
        ensures
            bytes@ == self.0@,
    {
        self.0.as_slice()
    }

    /// A copy of the key.
    pub fn duplicate(&self) -> (copy: Self)
        ensures
            copy.0@ == self.0@,
    {
        StorageKey(self.0.clone())
    }

    /// The key as text: `0x` and the lower-case hex digits of its bytes.
    pub fn to_string(&self) -> (text: String)
        ensures
            text@ == "0x"@ + hex_text(self.0@),
    {
        let mut text = String::from_str("0x");
        text.append(hex_encode(self.0.as_slice()).as_str());
        text
    }
}

impl From<Vec<u8>> for StorageKey {
    fn from(v: Vec<u8>) -> (key: Self) {
        StorageKey(v)
    }
}

impl vstd::std_specs::convert::FromSpecImpl<Vec<u8>> for StorageKey {
    open spec fn obeys_from_spec() -> bool {
        true
    }

    open spec fn from_spec(v: Vec<u8>) -> Self {
        StorageKey(v)
    }
}

impl vstd::std_specs::convert::FromSpecImpl<&[u8]> for StorageKey {
    open spec fn obeys_from_spec() -> bool {
        false
    }

    open spec fn from_spec(v: &[u8]) -> Self {
        arbitrary()
    }
}

impl From<&[u8]> for StorageKey {
    fn from(v: &[u8]) -> (key: Self)
        ensures
            key.0@ == v@,
    {
        StorageKey(slice_to_vec(v))
    }
}

impl vstd::std_specs::convert::FromSpecImpl<&str> for StorageKey {
    open spec fn obeys_from_spec() -> bool {
        false
    }

    open spec fn from_spec(s: &str) -> Self {
        arbitrary()
    }
}

impl From<&str> for StorageKey {
    fn from(s: &str) -> (key: Self)
        ensures
            key.0@ == s.spec_bytes(),
    {
        StorageKey(slice_to_vec(s.as_bytes()))
    }
}

/// An opaque storage value: a byte string.
#[derive(Clone, Debug, PartialEq, Eq)]
pub struct StorageValue(pub Vec<u8>);

impl StorageValue {
    pub fn new(bytes: Vec<u8>) -> (value: Self)
        ensures
            value.0 == bytes,
    {
        StorageValue(bytes)
    }

    pub fn as_bytes(&self) -> (bytes: &[u8])
        ensures
            bytes@ == self.0@,
    {
        self.0.as_slice()
    }

    pub fn len(&self) -> (n: usize)
        ensures
            n == self.0@.len(),
    {
        self.0.len()
    }

    pub fn is_empty(&self) -> (r: bool)
        ensures
            r == (self.0@.len() == 0),
    {
        self.0.len() == 0
    }

    /// A copy of the value.
    pub fn duplicate(&self) -> (copy: Self)
        ensures
            copy.0@ == self.0@,
    {
        StorageValue(self.0.clone())
    }
}

impl From<Vec<u8>> for StorageValue {
    fn from(v: Vec<u8>) -> (value: Self) {
        StorageValue(v)
    }
}

impl vstd::std_specs::convert::FromSpecImpl<Vec<u8>> for StorageValue {
    open spec fn obeys_from_spec() -> bool {
        true
    }

    open spec fn from_spec(v: Vec<u8>) -> Self {
        StorageValue(v)
    }
}

impl vstd::std_specs::convert::FromSpecImpl<&[u8]> for StorageValue {
    open spec fn obeys_from_spec() -> bool {
        false
    }

    open spec fn from_spec(v: &[u8]) -> Self {
        arbitrary()
    }
}

impl From<&[u8]> for StorageValue {
    fn from(v: &[u8]) -> (value: Self)
        ensures
            value.0@ == v@,
    {
        StorageValue(slice_to_vec(v))
    }
}

impl vstd::std_specs::convert::FromSpecImpl<&str> for StorageValue {
    open spec fn obeys_from_spec() -> bool {
        false
    }

    open spec fn from_spec(s: &str) -> Self {
        arbitrary()
    }
}

impl From<&str> for StorageValue {
    fn from(s: &str) -> (value: Self)
        ensures
            value.0@ == s.spec_bytes(),
    {
        StorageValue(slice_to_vec(s.as_bytes()))
    }
}

/// The configuration of the tiered storage.
#[derive(Clone, Debug)]
pub struct StorageConfig {
    /// The largest number of entries of the hot cache.
    pub lru_capacity: usize,
    /// The base directory of the warm tier.
    pub nvme_path: String,
    /// The base directory of the cold tier.
    pub archive_path: String,
    /// The RAM budget in bytes; advisory.
    pub max_ram_bytes: u64,
}

impl Default for StorageConfig {
    fn default() -> (config: Self)
        ensures
            config.lru_capacity == 10_000,
            config.nvme_path@ == "/tmp/trv1-warm"@,
            config.archive_path@ == "/tmp/trv1-cold"@,
            config.max_ram_bytes == 536_870_912,
    {
        StorageConfig {
            lru_capacity: 10_000,
            nvme_path: String::from_str("/tmp/trv1-warm"),
            archive_path: String::from_str("/tmp/trv1-cold"),
            max_ram_bytes: 536_870_912,
        }
    }
}

/// The tier in which a piece of data lies.
#[derive(Clone, Copy, Debug, PartialEq, Eq, Structural)]
pub enum StorageTier {
    /// The LRU cache in RAM: the fastest.
    Hot,
    /// File storage on NVMe or SSD.
    Warm,
    /// The archive of historical data.
    Cold,
}

impl StorageTier {
    /// The name of the tier.
    pub fn to_string(&self) -> (text: String)
        ensures
            text@ == (match self {
                StorageTier::Hot => "Hot"@,
                StorageTier::Warm => "Warm"@,
                StorageTier::Cold => "Cold"@,
            }),
    {
        match self {
            StorageTier::Hot => String::from_str("Hot"),
            StorageTier::Warm => String::from_str("Warm"),
            StorageTier::Cold => String::from_str("Cold"),
        }
    }
}

/// The running statistics of the tiered storage. A counter that has reached
/// the largest 64-bit number stays there.
#[derive(Clone, Copy, Debug, PartialEq, Eq)]
pub struct StorageStats {
    pub hot_entries: usize,
    pub hot_hits: u64,
    pub hot_misses: u64,
    pub warm_hits: u64,
    pub warm_misses: u64,
    pub cold_hits: u64,
    pub cold_misses: u64,
    pub promotions: u64,
    pub evictions: u64,
}

impl Default for StorageStats {
    fn default() -> (stats: Self)
        ensures
            stats == (StorageStats {
                hot_entries: 0,
                hot_hits: 0,
                hot_misses: 0,
                warm_hits: 0,
                warm_misses: 0,
                cold_hits: 0,
                cold_misses: 0,
                promotions: 0,
                evictions: 0,
            }),
    {
        StorageStats {
            hot_entries: 0,
            hot_hits: 0,
            hot_misses: 0,
            warm_hits: 0,
            warm_misses: 0,
            cold_hits: 0,
            cold_misses: 0,
            promotions: 0,
            evictions: 0,
        }
    }
}

/// Why a storage operation failed.
#[derive(Debug, Clone, PartialEq, Eq)]
pub enum StorageError {
    Io(String),
    Serialization(String),
    NotFound,
    Config(String),
}

pub type StorageResult<T> = Result<T, StorageError>;

} // verus!
