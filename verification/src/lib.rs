pub mod keys;
pub mod keymap;
pub mod bytes;
pub mod text;
pub mod crypto;
pub mod bft;
pub mod state;
pub mod staking;
pub mod validator_set;
pub mod storage;
pub mod fees;
pub mod rewards;
pub mod slashing;
pub mod mempool;
pub mod net;
pub mod genesis;
pub mod rpc;
pub mod node;
pub mod commands;
