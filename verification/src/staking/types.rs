//! Stake and delegation entries, the staking state and the staking errors.

use vstd::prelude::*;
use vstd::string::StringExecFns;
use crate::keys::PublicKey;
use crate::staking::tiers::LockTier;
use crate::text::{decimal_text, decimal_to_string};

verus! {

/// One locked position of a staker.
#[derive(Debug, Clone, Copy, PartialEq, Eq)]
pub struct StakeEntry {
    pub staker: PublicKey,
    /// The amount, in the smallest unit of the token.
    pub amount: u64,
    pub lock_tier: LockTier,
    /// The epoch in which the stake was made.
    pub start_epoch: u64,
    /// The epoch from which the stake can be taken out; none for a permanent lock.
    pub unlock_epoch: Option<u64>,
}

/// One delegation of a delegator to a validator.
#[derive(Debug, Clone, Copy, PartialEq, Eq)]
pub struct DelegationEntry {
    pub delegator: PublicKey,
    pub validator: PublicKey,
    pub amount: u64,
    pub lock_tier: LockTier,
    pub start_epoch: u64,
    /// The epoch from which the delegation can be taken back; none for a
    /// permanent lock.
    pub unlock_epoch: Option<u64>,
}

/// A delegation is found by its delegator and its validator.
pub type DelegationKey = (PublicKey, PublicKey);

/// The staking state of the whole chain. The entries of one staker, and the
/// delegations of one delegator to one validator, stand in the order in
/// which they were made.
#[derive(Debug, Clone)]
pub struct StakingState {
    /// The sum of all staked and delegated amounts.
    pub total_staked: u64,
    pub entries: Vec<StakeEntry>,
    pub delegations: Vec<DelegationEntry>,
    pub current_epoch: u64,
}

/// Why a staking operation failed.
#[derive(Debug, Clone, Copy, PartialEq, Eq, Structural)]
pub enum StakingError {
    InsufficientBalance { have: u64, need: u64 },
    StillLocked { unlock_epoch: u64, current_epoch: u64 },
    PermanentLock,
    NoStakeFound,
    NoDelegationFound,
    ZeroAmount,
    Overflow,
}

/// The text that describes a staking error.
pub open spec fn staking_error_text(error: StakingError) -> Seq<char> {
    match error {
        StakingError::InsufficientBalance { have, need } => "insufficient stake balance: have "@
            + decimal_text(have as nat) + ", need "@ + decimal_text(need as nat),
        StakingError::StillLocked { unlock_epoch, current_epoch } =>
            "stake is still locked until epoch "@ + decimal_text(unlock_epoch as nat)
                + ", current epoch is "@ + decimal_text(current_epoch as nat),
        StakingError::PermanentLock => "permanent stakes cannot be unstaked"@,
        StakingError::NoStakeFound => "no stake found for the given pubkey"@,
        StakingError::NoDelegationFound =>
            "no delegation found for the given delegator/validator pair"@,
        StakingError::ZeroAmount => "amount must be greater than zero"@,
        StakingError::Overflow => "arithmetic overflow"@,
    }
}

impl StakingError {
    /// The text that describes the error.
    pub fn to_string(&self) -> (text: String)
        ensures
            text@ == staking_error_text(*self),
    {
        match self {
            StakingError::InsufficientBalance { have, need } => {
                let mut text = String::from_str("insufficient stake balance: have ");
                text.append(decimal_to_string(*have).as_str());
                text.append(", need ");
                text.append(decimal_to_string(*need).as_str());
                text
            },
            StakingError::StillLocked { unlock_epoch, current_epoch } => {
                let mut text = String::from_str("stake is still locked until epoch ");
                text.append(decimal_to_string(*unlock_epoch).as_str());
                text.append(", current epoch is ");
                text.append(decimal_to_string(*current_epoch).as_str());
                text
            },
            StakingError::PermanentLock => String::from_str("permanent stakes cannot be unstaked"),
            StakingError::NoStakeFound => String::from_str("no stake found for the given pubkey"),
            StakingError::NoDelegationFound => String::from_str(
                "no delegation found for the given delegator/validator pair",
            ),
            StakingError::ZeroAmount => String::from_str("amount must be greater than zero"),
            StakingError::Overflow => String::from_str("arithmetic overflow"),
        }
    }
}

} // verus!
