pub mod types;
pub mod config;
pub mod builder;
