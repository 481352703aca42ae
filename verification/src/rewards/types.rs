//! Contracts, reward events and the errors of the developer rewards.

use vstd::prelude::*;
use crate::keys::PublicKey;

verus! {

/// The address of a contract: a 32-byte hash.
pub type ContractAddress = [u8; 32];

/// What is registered of a deployed contract.
#[derive(Debug, Clone, Copy, PartialEq, Eq)]
pub struct ContractRegistry {
    pub contract_address: ContractAddress,
    pub deployer: PublicKey,
    /// The height at which the contract was deployed.
    pub deploy_height: u64,
    /// All fees that the contract has earned.
    pub total_fees_earned: u64,
}

/// One distribution of rewards to a developer.
#[derive(Debug, Clone, Copy, PartialEq, Eq)]
pub struct RewardEvent {
    /// The contract that earned the fees.
    pub contract: ContractAddress,
    /// The developer who receives the reward.
    pub developer: PublicKey,
    pub amount: u64,
    /// The height of the distribution.
    pub height: u64,
}

/// Why an operation of the developer rewards failed.
#[derive(Debug, Clone, Copy, PartialEq, Eq)]
pub enum RewardsError {
    AlreadyRegistered(ContractAddress),
    ContractNotFound(ContractAddress),
    ZeroFeeAmount,
    Overflow,
}

} // verus!
