pub mod types;
pub mod developer;
