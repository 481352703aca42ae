pub mod runtime;
pub mod driver;
pub mod setup;
