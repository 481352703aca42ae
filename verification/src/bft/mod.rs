pub mod types;
pub mod block;
pub mod vote;
pub mod round;
pub mod state_machine;
