//! The configuration of the fee market and of the fee split, and what they
//! compute.

use vstd::prelude::*;

verus! {

/// The shares of a fee in basis points: 100 is 1%.
#[derive(Debug, Clone, Copy, PartialEq, Eq, Structural)]
pub struct SplitRatios {
    pub burn_bps: u64,
    pub validator_bps: u64,
    pub treasury_bps: u64,
    pub developer_bps: u64,
}

impl SplitRatios {
    /// The sum of the four shares.
    pub open spec fn total(self) -> int {
        self.burn_bps + self.validator_bps + self.treasury_bps + self.developer_bps
    }

    /// Whether the shares sum to 10_000 basis points.
    pub open spec fn is_valid(self) -> bool {
        self.total() == 10_000
    }

    /// Whether the shares sum to 10_000 basis points.
    pub fn validate(&self) -> (r: bool)
        ensures
            r == self.is_valid(),
    {
        let sum: u128 = self.burn_bps as u128 + self.validator_bps as u128
            + self.treasury_bps as u128 + self.developer_bps as u128;
        sum == 10_000
    }

    /// The sum of the four shares, at most the largest 64-bit number.
    pub fn capped_total(&self) -> (sum: u64)
        ensures
            sum == (if self.total() <= u64::MAX {
                self.total()
            } else {
                u64::MAX as int
            }),
    {
        self.burn_bps.saturating_add(self.validator_bps).saturating_add(
            self.treasury_bps,
        ).saturating_add(self.developer_bps)
    }
}

/// A share between its value at launch and its value at maturity, `epoch`
/// epochs into a transition of `transition` epochs: the linear
/// interpolation, rounded towards the value at launch.
pub open spec fn interpolated(launch: u64, maturity: u64, epoch: u64, transition: u64) -> int {
    if maturity >= launch {
        launch + ((maturity - launch) * epoch) / (transition as int)
    } else {
        launch - ((launch - maturity) * epoch) / (transition as int)
    }
}

/// How the fee split moves from launch to maturity.
#[derive(Debug, Clone, Copy, PartialEq, Eq, Structural)]
pub struct SplitConfig {
    /// The shares at launch, in epoch 0.
    pub launch: SplitRatios,
    /// The shares at maturity, from `transition_epochs` on.
    pub maturity: SplitRatios,
    /// Over how many epochs the shares move linearly from launch to maturity.
    pub transition_epochs: u64,
}

/// The default fee split: at launch 10% burn, nothing for the validator,
/// 45% each for treasury and developer; at maturity 25% each; the
/// transition takes 1825 epochs.
pub open spec fn default_split_config() -> SplitConfig {
    SplitConfig {
        launch: SplitRatios {
            burn_bps: 1000,
            validator_bps: 0,
            treasury_bps: 4500,
            developer_bps: 4500,
        },
        maturity: SplitRatios {
            burn_bps: 2500,
            validator_bps: 2500,
            treasury_bps: 2500,
            developer_bps: 2500,
        },
        transition_epochs: 1825,
    }
}

/// In every epoch of its transition the default fee split leaves room for
/// burn: what validator, treasury and developer get is at most 10_000
/// basis points.
pub proof fn law_default_split_leaves_room(epoch: u64)
    requires
        epoch < 1825,
    ensures
        default_split_config().interpolated_sum(epoch) <= 10_000,
{
    let e = epoch as int;
    let up = (2500 * e) / 1825;
    let down = (2000 * e) / 1825;
    assert(1825 * up <= 2500 * e && 2000 * e < 1825 * (down + 1) && down >= 0 && up >= 0)
        by (nonlinear_arith)
        requires
            0 <= e,
            up == (2500 * e) / 1825,
            down == (2000 * e) / 1825,
    ;
    assert(4 * up < 5 * (down + 1)) by (nonlinear_arith)
        requires
            1825 * up <= 2500 * e,
            2000 * e < 1825 * (down + 1),
    ;
    assert(interpolated(0, 2500, epoch, 1825) == up);
    assert(interpolated(4500, 2500, epoch, 1825) == 4500 - down);
}

impl Default for SplitConfig {
    fn default() -> (config: Self)
        ensures
            config == default_split_config(),
            config.is_valid(),
    {
        SplitConfig {
            launch: SplitRatios {
                burn_bps: 1000,
                validator_bps: 0,
                treasury_bps: 4500,
                developer_bps: 4500,
            },
            maturity: SplitRatios {
                burn_bps: 2500,
                validator_bps: 2500,
                treasury_bps: 2500,
                developer_bps: 2500,
            },
            transition_epochs: 1825,
        }
    }
}

impl SplitConfig {
    /// Whether the shares at launch and those at maturity each sum to
    /// 10_000 basis points.
    pub open spec fn is_valid(self) -> bool {
        self.launch.is_valid() && self.maturity.is_valid()
    }

    /// The sum of the interpolated shares of validator, treasury and
    /// developer in `epoch`.
    pub open spec fn interpolated_sum(self, epoch: u64) -> int {
        interpolated(
            self.launch.validator_bps,
            self.maturity.validator_bps,
            epoch,
            self.transition_epochs,
        ) + interpolated(
            self.launch.treasury_bps,
            self.maturity.treasury_bps,
            epoch,
            self.transition_epochs,
        ) + interpolated(
            self.launch.developer_bps,
            self.maturity.developer_bps,
            epoch,
            self.transition_epochs,
        )
    }

    /// The shares in `epoch`: those at maturity from `transition_epochs` on;
    /// before, validator, treasury and developer are interpolated, and burn
    /// takes the rest of the 10_000 basis points.
    pub open spec fn ratios_at(self, epoch: u64) -> SplitRatios {
        if epoch >= self.transition_epochs {
            self.maturity
        } else {
            let validator = interpolated(
                self.launch.validator_bps,
                self.maturity.validator_bps,
                epoch,
                self.transition_epochs,
            );
            let treasury = interpolated(
                self.launch.treasury_bps,
                self.maturity.treasury_bps,
                epoch,
                self.transition_epochs,
            );
            let developer = interpolated(
                self.launch.developer_bps,
                self.maturity.developer_bps,
                epoch,
                self.transition_epochs,
            );
            SplitRatios {
                burn_bps: (10_000 - validator - treasury - developer) as u64,
                validator_bps: validator as u64,
                treasury_bps: treasury as u64,
                developer_bps: developer as u64,
            }
        }
    }

    /// Whether the shares at launch and those at maturity each sum to
    /// 10_000 basis points.
    pub fn validate(&self) -> (r: bool)
        ensures
            r == self.is_valid(),
    {
        self.launch.validate() && self.maturity.validate()
    }

    /// The shares in `epoch`. During the transition the interpolated shares
    /// of validator, treasury and developer must leave room for burn.
    pub fn split_at_epoch(&self, epoch: u64) -> (ratios: SplitRatios)
        requires
            epoch < self.transition_epochs ==> self.is_valid() && self.interpolated_sum(epoch)
                <= 10_000,
        ensures
            ratios == self.ratios_at(epoch),
            ratios.is_valid() || (epoch >= self.transition_epochs && !self.maturity.is_valid()),
    {
        if epoch >= self.transition_epochs {
            return self.maturity;
        }
        let validator_bps = interpolate(
            self.launch.validator_bps,
            self.maturity.validator_bps,
            epoch,
            self.transition_epochs,
        );
        let treasury_bps = interpolate(
            self.launch.treasury_bps,
            self.maturity.treasury_bps,
            epoch,
            self.transition_epochs,
        );
        let developer_bps = interpolate(
            self.launch.developer_bps,
            self.maturity.developer_bps,
            epoch,
            self.transition_epochs,
        );
        let burn_bps = 10_000 - validator_bps - treasury_bps - developer_bps;
        SplitRatios { burn_bps, validator_bps, treasury_bps, developer_bps }
    }
}

/// The linear interpolation between `launch` and `maturity`.
fn interpolate(launch: u64, maturity: u64, epoch: u64, transition: u64) -> (r: u64)
    requires
        epoch < transition,
        launch <= 10_000,
        maturity <= 10_000,
    ensures
        r == interpolated(launch, maturity, epoch, transition),
        r <= 10_000,
{
    if maturity >= launch {
        let span: u128 = (maturity - launch) as u128;
        assert(span * (epoch as u128) <= 10_000 * 0xffff_ffff_ffff_ffff) by (nonlinear_arith)
            requires
                span <= 10_000,
                epoch <= 0xffff_ffff_ffff_ffff,
        ;
        let moved: u128 = span * (epoch as u128) / (transition as u128);
        assert(moved <= span) by (nonlinear_arith)
            requires
                moved == (span * epoch) / (transition as int),
                epoch < transition,
        ;
        launch + moved as u64
    } else {
        let span: u128 = (launch - maturity) as u128;
        assert(span * (epoch as u128) <= 10_000 * 0xffff_ffff_ffff_ffff) by (nonlinear_arith)
            requires
                span <= 10_000,
                epoch <= 0xffff_ffff_ffff_ffff,
        ;
        let moved: u128 = span * (epoch as u128) / (transition as u128);
        assert(moved <= span) by (nonlinear_arith)
            requires
                moved == (span * epoch) / (transition as int),
                epoch < transition,
        ;
        launch - moved as u64
    }
}

/// The configuration of the fee market.
#[derive(Debug, Clone, Copy, PartialEq, Eq, Structural)]
pub struct FeeConfig {
    /// The gas use of a block at which the base fee stays as it is.
    pub target_gas_per_block: u64,
    /// The largest gas use of a block.
    pub max_gas_per_block: u64,
    /// The floor below which the base fee never falls.
    pub base_fee_floor: u64,
    /// What the change of the base fee is divided by: 8 gives 12.5% at most.
    pub elasticity_multiplier: u64,
    /// The fee split.
    pub split: SplitConfig,
}

impl Default for FeeConfig {
    fn default() -> (config: Self)
        ensures
            config.target_gas_per_block == 15_000_000,
            config.max_gas_per_block == 30_000_000,
            config.base_fee_floor == 1,
            config.elasticity_multiplier == 8,
            config.split.is_valid(),
            config.split.transition_epochs == 1825,
    {
        FeeConfig {
            target_gas_per_block: 15_000_000,
            max_gas_per_block: 30_000_000,
            base_fee_floor: 1,
            elasticity_multiplier: 8,
            split: SplitConfig::default(),
        }
    }
}

/// The fee of a transaction.
#[derive(Debug, Clone, Copy, PartialEq, Eq, Structural)]
pub struct TransactionFee {
    /// The part that is burned or split.
    pub base_fee: u64,
    /// The tip to the validator.
    pub priority_fee: u64,
    /// The sum of the two.
    pub total: u64,
}

/// A fee split into its four destinations.
#[derive(Debug, Clone, Copy, PartialEq, Eq, Structural)]
pub struct SplitResult {
    pub burn: u64,
    pub validator: u64,
    pub treasury: u64,
    pub developer: u64,
}

/// Why a fee operation failed.
#[derive(Debug, Clone, Copy, PartialEq, Eq, Structural)]
pub enum FeeError {
    InvalidSplitRatios(u64),
    GasExceedsMax { used: u64, max: u64 },
    ZeroElasticity,
    Overflow,
}

} // verus!
