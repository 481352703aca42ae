pub mod types;
pub mod eip1559;
pub mod split;
