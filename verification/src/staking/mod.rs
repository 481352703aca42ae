pub mod tiers;
pub mod types;
pub mod rewards;
pub mod pool;
