pub mod types;
pub mod evidence;
pub mod engine;
