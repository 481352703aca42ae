//! What the RPC interface takes and gives.

use vstd::prelude::*;

verus! {

/// A committed block.
#[derive(Debug, Clone, PartialEq, Eq)]
pub struct BlockResponse {
    pub height: u64,
    pub timestamp: u64,
    pub parent_hash: String,
    pub proposer: String,
    pub tx_count: usize,
    pub block_hash: String,
}

/// A validator.
#[derive(Debug, Clone, PartialEq, Eq)]
pub struct ValidatorResponse {
    pub pubkey: String,
    pub stake: u64,
    pub commission_rate: u16,
    pub status: String,
    pub performance_score: u16,
}

/// The stake and the voting power of a key.
#[derive(Debug, Clone, PartialEq, Eq)]
pub struct StakingInfoResponse {
    pub pubkey: String,
    pub total_staked: u64,
    pub voting_power: u64,
}

/// The state of the fee market.
#[derive(Debug, Clone, Copy, PartialEq, Eq, Structural)]
pub struct FeeInfoResponse {
    pub base_fee: u64,
    pub target_gas_per_block: u64,
    pub max_gas_per_block: u64,
}

/// The health of the node.
#[derive(Debug, Clone, PartialEq, Eq)]
pub struct HealthResponse {
    pub status: String,
    pub current_height: u64,
    pub validator_count: usize,
    pub version: String,
}

/// A transaction to submit, with its byte strings as hex text.
#[derive(Debug, Clone, PartialEq, Eq)]
pub struct SubmitTransactionRequest {
    pub from: String,
    pub to: String,
    pub amount: u64,
    pub nonce: u64,
    pub signature: String,
    pub data: String,
}

/// What became of a submitted transaction.
#[derive(Debug, Clone, PartialEq, Eq)]
pub struct SubmitTransactionResponse {
    pub tx_hash: String,
    pub accepted: bool,
}

/// The balance and the nonce of an account.
#[derive(Debug, Clone, PartialEq, Eq)]
pub struct AccountResponse {
    pub pubkey: String,
    pub balance: u64,
    pub nonce: u64,
}

} // verus!
