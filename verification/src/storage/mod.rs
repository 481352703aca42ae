pub mod types;
pub mod layout;
pub mod lru_cache;
pub mod nvme;
pub mod archive;
pub mod tiered;
pub mod laws;
