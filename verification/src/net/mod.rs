pub mod wire;
pub mod codec;
pub mod peer;
pub mod network;
