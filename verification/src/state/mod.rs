pub mod types;
pub mod accounts;
pub mod state_db;
