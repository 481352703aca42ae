pub mod types;
pub mod rotation;
pub mod manager;
pub mod laws;
