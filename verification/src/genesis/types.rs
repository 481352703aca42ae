//! The entries and parameters of a genesis configuration, and its errors.

use vstd::prelude::*;
use vstd::string::StringExecFns;

verus! {

/// A validator of the genesis configuration.
#[derive(Debug, Clone, Copy, PartialEq, Eq)]
pub struct GenesisValidator {
    pub pubkey: [u8; 32],
    /// The stake at genesis, in the smallest unit of the token.
    pub initial_stake: u64,
    /// The commission in basis points.
    pub commission_rate: u16,
}

/// An account of the genesis configuration.
#[derive(Debug, Clone, Copy, PartialEq, Eq)]
pub struct GenesisAccount {
    pub pubkey: [u8; 32],
    pub balance: u64,
}

/// The parameters of the chain that are set at genesis.
#[derive(Debug, Clone, PartialEq, Eq)]
pub struct ChainParams {
    pub chain_id: String,
    /// The number of blocks of an epoch.
    pub epoch_length: u64,
    /// The target block time in milliseconds.
    pub block_time_ms: u64,
    /// The largest number of active validators.
    pub max_validators: usize,
    /// The floor of the base fee.
    pub base_fee_floor: u64,
    pub fee_launch_burn_bps: u64,
    pub fee_launch_validator_bps: u64,
    pub fee_launch_treasury_bps: u64,
    pub fee_launch_developer_bps: u64,
    pub fee_maturity_burn_bps: u64,
    pub fee_maturity_validator_bps: u64,
    pub fee_maturity_treasury_bps: u64,
    pub fee_maturity_developer_bps: u64,
    /// Over how many epochs the fee split moves from launch to maturity.
    pub fee_transition_epochs: u64,
    pub slash_double_sign_bps: u64,
    pub slash_downtime_bps: u64,
    /// The base staking yield in basis points.
    pub staking_base_apy: u64,
}

impl Default for ChainParams {
    fn default() -> (params: Self)
        ensures
            params.chain_id@ == "trv1-devnet"@,
            params.epoch_length == 100,
            params.block_time_ms == 2000,
            params.max_validators == 200,
            params.base_fee_floor == 1,
            params.fee_launch_burn_bps == 1000,
            params.fee_launch_validator_bps == 0,
            params.fee_launch_treasury_bps == 4500,
            params.fee_launch_developer_bps == 4500,
            params.fee_maturity_burn_bps == 2500,
            params.fee_maturity_validator_bps == 2500,
            params.fee_maturity_treasury_bps == 2500,
            params.fee_maturity_developer_bps == 2500,
            params.fee_transition_epochs == 1825,
            params.slash_double_sign_bps == 5000,
            params.slash_downtime_bps == 100,
            params.staking_base_apy == 500,
            params.fee_split_valid(),
    {
        ChainParams {
            chain_id: String::from_str("trv1-devnet"),
            epoch_length: 100,
            block_time_ms: 2000,
            max_validators: 200,
            base_fee_floor: 1,
            fee_launch_burn_bps: 1000,
            fee_launch_validator_bps: 0,
            fee_launch_treasury_bps: 4500,
            fee_launch_developer_bps: 4500,
            fee_maturity_burn_bps: 2500,
            fee_maturity_validator_bps: 2500,
            fee_maturity_treasury_bps: 2500,
            fee_maturity_developer_bps: 2500,
            fee_transition_epochs: 1825,
            slash_double_sign_bps: 5000,
            slash_downtime_bps: 100,
            staking_base_apy: 500,
        }
    }
}

impl ChainParams {
    /// The sum of the shares of the fee split at launch.
    pub open spec fn launch_total(self) -> int {
        self.fee_launch_burn_bps + self.fee_launch_validator_bps + self.fee_launch_treasury_bps
            + self.fee_launch_developer_bps
    }

    /// The sum of the shares of the fee split at maturity.
    pub open spec fn maturity_total(self) -> int {
        self.fee_maturity_burn_bps + self.fee_maturity_validator_bps
            + self.fee_maturity_treasury_bps + self.fee_maturity_developer_bps
    }

    /// Whether the fee split at launch and that at maturity each sum to
    /// 10_000 basis points.
    pub open spec fn fee_split_valid(self) -> bool {
        self.launch_total() == 10_000 && self.maturity_total() == 10_000
    }

    /// The sum of the shares at launch, at most the largest 64-bit number.
    pub fn launch_sum(&self) -> (sum: u64)
        ensures
            sum == (if self.launch_total() <= u64::MAX {
                self.launch_total()
            } else {
                u64::MAX as int
            }),
    {
        self.fee_launch_burn_bps.saturating_add(self.fee_launch_validator_bps).saturating_add(
            self.fee_launch_treasury_bps,
        ).saturating_add(self.fee_launch_developer_bps)
    }

    /// The sum of the shares at maturity, at most the largest 64-bit number.
    pub fn maturity_sum(&self) -> (sum: u64)
        ensures
            sum == (if self.maturity_total() <= u64::MAX {
                self.maturity_total()
            } else {
                u64::MAX as int
            }),
    {
        self.fee_maturity_burn_bps.saturating_add(self.fee_maturity_validator_bps).saturating_add(
            self.fee_maturity_treasury_bps,
        ).saturating_add(self.fee_maturity_developer_bps)
    }

    /// Whether the fee split at launch and that at maturity each sum to
    /// 10_000 basis points.
    pub fn validate_fee_split(&self) -> (r: bool)
        ensures
            r == self.fee_split_valid(),
    {
        self.launch_sum() == 10_000 && self.maturity_sum() == 10_000
    }
}

/// Why a genesis configuration is refused.
#[derive(Debug, Clone, PartialEq, Eq)]
pub enum GenesisError {
    NoValidators,
    ZeroStake { index: usize },
    InvalidCommission { index: usize },
    InvalidFeeSplit(u64),
    ZeroEpochLength,
    ZeroBlockTime,
    ZeroMaxValidators,
    Io(String),
    Json(String),
    DuplicateValidator(usize),
}

} // verus!
