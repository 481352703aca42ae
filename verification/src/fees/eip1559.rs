//! The dynamic fee market: the base fee follows the gas use of the blocks.

use vstd::prelude::*;
use crate::fees::types::{FeeConfig, FeeError, TransactionFee};

verus! {

/// The larger of two numbers.
pub open spec fn at_least(value: u64, floor: u64) -> u64 {
    if value < floor {
        floor
    } else {
        value
    }
}

/// A product of two 64-bit numbers, at most the largest 64-bit number.
pub open spec fn capped_product(a: u64, b: u64) -> u64 {
    if a * b <= u64::MAX {
        (a * b) as u64
    } else {
        u64::MAX
    }
}

/// A sum of two 64-bit numbers, at most the largest 64-bit number.
pub open spec fn capped_sum(a: u64, b: u64) -> u64 {
    if a + b <= u64::MAX {
        (a + b) as u64
    } else {
        u64::MAX
    }
}

/// By how much the base fee changes for a block that used `gas_used`: the
/// fee times the distance of the gas use from the target, divided by the
/// target times the elasticity; the low 64 bits of that, and at least 1
/// where more gas than the target was used.
pub open spec fn fee_delta(base_fee: u64, gas_used: u64, target: u64, elasticity: u64) -> u64 {
    if gas_used > target {
        let raw = (base_fee * (gas_used - target)) / (target * elasticity);
        (if raw < 1 {
            1
        } else {
            raw % 0x1_0000_0000_0000_0000
        }) as u64
    } else {
        (((base_fee * (target - gas_used)) / (target * elasticity)) % 0x1_0000_0000_0000_0000) as u64
    }
}

/// The base fee after a block that used `gas_used`. It rises above the
/// target, falls below it, stays at the target, and never falls below the
/// floor.
pub open spec fn next_base_fee(config: FeeConfig, base_fee: u64, gas_used: u64) -> u64 {
    let target = config.target_gas_per_block;
    let delta = fee_delta(base_fee, gas_used, target, config.elasticity_multiplier);
    if gas_used == target {
        base_fee
    } else if gas_used > target {
        at_least(capped_sum(base_fee, delta), config.base_fee_floor)
    } else {
        at_least(
            if base_fee >= delta {
                (base_fee - delta) as u64
            } else {
                0
            },
            config.base_fee_floor,
        )
    }
}

/// The fee market.
#[derive(Debug, Clone, Copy, PartialEq, Eq)]
pub struct FeeMarket {
    config: FeeConfig,
    base_fee: u64,
}

impl FeeMarket {
    /// The configuration.
    pub closed spec fn spec_config(self) -> FeeConfig {
        self.config
    }

    /// The base fee for a unit of gas.
    pub closed spec fn base_fee(self) -> u64 {
        self.base_fee
    }

    /// The elasticity is above zero.
    pub open spec fn wf(self) -> bool {
        self.spec_config().elasticity_multiplier > 0
    }

    /// A fee market with the base fee `initial_base_fee`, or the floor where
    /// that is higher. Fails for an elasticity of zero, and for a fee split
    /// whose shares at launch or at maturity do not sum to 10_000 basis
    /// points: the error holds the sum that is wrong.
    pub fn new(config: FeeConfig, initial_base_fee: u64) -> (r: Result<Self, FeeError>)
        ensures
            match r {
                Ok(market) => {
                    &&& config.elasticity_multiplier > 0
                    &&& config.split.is_valid()
                    &&& market.spec_config() == config
                    &&& market.base_fee() == at_least(initial_base_fee, config.base_fee_floor)
                    &&& market.wf()
                },
                Err(error) => if config.elasticity_multiplier == 0 {
                    error == FeeError::ZeroElasticity
                } else if !config.split.launch.is_valid() {
                    error matches FeeError::InvalidSplitRatios(sum) && (sum
                        == config.split.launch.total() || (sum == u64::MAX
                        && config.split.launch.total() > u64::MAX))
                } else {
                    &&& !config.split.maturity.is_valid()
                    &&& error matches FeeError::InvalidSplitRatios(sum) && (sum
                        == config.split.maturity.total() || (sum == u64::MAX
                        && config.split.maturity.total() > u64::MAX))
                },
            },
    {
        if config.elasticity_multiplier == 0 {
            return Err(FeeError::ZeroElasticity);
        }
        if !config.split.launch.validate() {
            return Err(FeeError::InvalidSplitRatios(config.split.launch.capped_total()));
        }
        if !config.split.maturity.validate() {
            return Err(FeeError::InvalidSplitRatios(config.split.maturity.capped_total()));
        }
        let base_fee = if initial_base_fee < config.base_fee_floor {
            config.base_fee_floor
        } else {
            initial_base_fee
        };
        Ok(FeeMarket { config, base_fee })
    }

    /// Moves the base fee after a block that used `gas_used`.
    pub fn update_base_fee(&mut self, gas_used: u64)
        requires
            old(self).wf(),
            old(self).spec_config().target_gas_per_block > 0 || gas_used == 0,
        ensures
            final(self).spec_config() == old(self).spec_config(),
            final(self).base_fee() == next_base_fee(
                old(self).spec_config(),
                old(self).base_fee(),
                gas_used,
            ),
            final(self).wf(),
    {
        let gas_target = self.config.target_gas_per_block;
        let elasticity = self.config.elasticity_multiplier;
        if gas_used == gas_target {
            return ;
        }
        assert((gas_target as u128) * (elasticity as u128) <= 0xffff_ffff_ffff_ffff
            * 0xffff_ffff_ffff_ffff) by (nonlinear_arith)
            requires
                gas_target <= 0xffff_ffff_ffff_ffff,
                elasticity <= 0xffff_ffff_ffff_ffff,
        ;
        assert((gas_target as u128) * (elasticity as u128) > 0) by (nonlinear_arith)
            requires
                gas_target > 0,
                elasticity > 0,
        ;
        let divisor: u128 = (gas_target as u128) * (elasticity as u128);
        if gas_used > gas_target {
            let gas_delta = gas_used - gas_target;
            assert((self.base_fee as u128) * (gas_delta as u128) <= 0xffff_ffff_ffff_ffff
                * 0xffff_ffff_ffff_ffff) by (nonlinear_arith)
                requires
                    self.base_fee <= 0xffff_ffff_ffff_ffff,
                    gas_delta <= 0xffff_ffff_ffff_ffff,
            ;
            let raw: u128 = (self.base_fee as u128) * (gas_delta as u128) / divisor;
            let raised: u128 = if raw < 1 {
                1
            } else {
                raw
            };
            let delta: u64 = #[verifier::truncate]
            (raised as u64);
            assert(delta == raised % 0x1_0000_0000_0000_0000) by (bit_vector)
                requires
                    delta == raised as u64,
            ;
            self.base_fee = self.base_fee.saturating_add(delta);
        } else {
            let gas_delta = gas_target - gas_used;
            assert((self.base_fee as u128) * (gas_delta as u128) <= 0xffff_ffff_ffff_ffff
                * 0xffff_ffff_ffff_ffff) by (nonlinear_arith)
                requires
                    self.base_fee <= 0xffff_ffff_ffff_ffff,
                    gas_delta <= 0xffff_ffff_ffff_ffff,
            ;
            let raw: u128 = (self.base_fee as u128) * (gas_delta as u128) / divisor;
            let delta: u64 = #[verifier::truncate]
            (raw as u64);
            assert(delta == raw % 0x1_0000_0000_0000_0000) by (bit_vector)
                requires
                    delta == raw as u64,
            ;
            self.base_fee = self.base_fee.saturating_sub(delta);
        }
        if self.base_fee < self.config.base_fee_floor {
            self.base_fee = self.config.base_fee_floor;
        }
    }

    /// The fee of a transaction that uses `gas_units` and tips
    /// `priority_fee_per_gas` for each: the products and their sum, each at
    /// most the largest 64-bit number.
    pub fn calculate_fee(&self, gas_units: u64, priority_fee_per_gas: u64) -> (fee: TransactionFee)
        ensures
            fee.base_fee == capped_product(self.base_fee(), gas_units),
            fee.priority_fee == capped_product(priority_fee_per_gas, gas_units),
            fee.total == capped_sum(fee.base_fee, fee.priority_fee),
    {
        let base_fee = capped_mul(self.base_fee, gas_units);
        let priority_fee = capped_mul(priority_fee_per_gas, gas_units);
        TransactionFee { base_fee, priority_fee, total: base_fee.saturating_add(priority_fee) }
    }

    /// The base fee for a unit of gas.
    pub fn current_base_fee(&self) -> (fee: u64)
        ensures
            fee == self.base_fee(),
    {
        self.base_fee
    }

    /// The configuration.
    pub fn config(&self) -> (config: &FeeConfig)
        ensures
            *config == self.spec_config(),
    {
        &self.config
    }
}

/// The product of two numbers, at most the largest 64-bit number.
fn capped_mul(a: u64, b: u64) -> (r: u64)
    ensures
        r == capped_product(a, b),
{
    match a.checked_mul(b) {
        Some(product) => product,
        None => u64::MAX,
    }
}

/// The base fee never falls below the floor, and stays as it is for a block
/// that used exactly the target.
pub proof fn law_base_fee_respects_floor(config: FeeConfig, base_fee: u64, gas_used: u64)
    ensures
        gas_used != config.target_gas_per_block ==> next_base_fee(config, base_fee, gas_used)
            >= config.base_fee_floor,
        gas_used == config.target_gas_per_block ==> next_base_fee(config, base_fee, gas_used)
            == base_fee,
{
}

} // verus!
