pub mod types;
pub mod server;
