pub mod types;
pub mod validation;
pub mod pool;
