//! The split of a fee between burn, validator, treasury and developer.

use vstd::prelude::*;
use crate::fees::types::{
    FeeError,
    SplitConfig,
    SplitRatios,
    SplitResult,
    default_split_config,
    law_default_split_leaves_room,
};

verus! {

/// The share of `total_fee` for `bps` basis points, rounded down.
pub open spec fn share_of(total_fee: u64, bps: u64) -> int {
    (total_fee * bps) / 10_000
}

/// The split of `total_fee` by `ratios`: validator, treasury and developer
/// get their shares rounded down, and burn gets the rest.
pub open spec fn split_by(total_fee: u64, ratios: SplitRatios) -> SplitResult {
    let validator = share_of(total_fee, ratios.validator_bps);
    let treasury = share_of(total_fee, ratios.treasury_bps);
    let developer = share_of(total_fee, ratios.developer_bps);
    SplitResult {
        burn: (total_fee - validator - treasury - developer) as u64,
        validator: validator as u64,
        treasury: treasury as u64,
        developer: developer as u64,
    }
}

/// The fee split.
#[derive(Debug, Clone, Copy, PartialEq, Eq)]
pub struct FeeSplit {
    config: SplitConfig,
}

impl FeeSplit {
    /// The configuration.
    pub closed spec fn spec_config(self) -> SplitConfig {
        self.config
    }

    /// The shares at launch and at maturity each sum to 10_000 basis points.
    pub open spec fn wf(self) -> bool {
        self.spec_config().is_valid()
    }

    /// The fee split with the default configuration, which leaves room
    /// for burn in every epoch: `split_fee` can be called for any epoch.
    pub fn new() -> (split: Self)
        ensures
            split.wf(),
            split.spec_config() == default_split_config(),
            forall|epoch: u64|
                epoch < 1825 ==> #[trigger] split.spec_config().interpolated_sum(epoch) <= 10_000,
    {
        let split = FeeSplit { config: SplitConfig::default() };
        proof {
            assert forall|epoch: u64| epoch < 1825 implies #[trigger] split.spec_config().interpolated_sum(
                epoch,
            ) <= 10_000 by {
                law_default_split_leaves_room(epoch);
            }
        }
        split
    }

    /// The fee split with the configuration `config`. Fails where the
    /// shares at launch or at maturity do not sum to 10_000 basis points.
    pub fn with_config(config: SplitConfig) -> (r: Result<Self, FeeError>)
        ensures
            match r {
                Ok(split) => config.is_valid() && split.spec_config() == config && split.wf(),
                Err(error) => !config.is_valid() && error == FeeError::InvalidSplitRatios(0),
            },
    {
        if !config.validate() {
            return Err(FeeError::InvalidSplitRatios(0));
        }
        Ok(FeeSplit { config })
    }

    /// Splits `total_fee` by the shares of `epoch`. The four parts sum to
    /// the fee.
    pub fn split_fee(&self, total_fee: u64, epoch: u64) -> (parts: SplitResult)
        requires
            self.wf(),
            epoch < self.spec_config().transition_epochs ==> self.spec_config().interpolated_sum(
                epoch,
            ) <= 10_000,
        ensures
            parts == split_by(total_fee, self.spec_config().ratios_at(epoch)),
            parts.burn + parts.validator + parts.treasury + parts.developer == total_fee,
    {
        let ratios = self.config.split_at_epoch(epoch);
        let validator = portion(total_fee, ratios.validator_bps);
        let treasury = portion(total_fee, ratios.treasury_bps);
        let developer = portion(total_fee, ratios.developer_bps);
        proof {
            let t = total_fee as int;
            let sum = ratios.validator_bps + ratios.treasury_bps + ratios.developer_bps;
            assert(sum <= 10_000);
            assert((t * ratios.validator_bps) / 10_000 + (t * ratios.treasury_bps) / 10_000 + (t
                * ratios.developer_bps) / 10_000 <= t) by (nonlinear_arith)
                requires
                    0 <= t,
                    ratios.validator_bps + ratios.treasury_bps + ratios.developer_bps <= 10_000,
            ;
        }
        let burn = total_fee - validator - treasury - developer;
        SplitResult { burn, validator, treasury, developer }
    }

    /// The configuration.
    pub fn config(&self) -> (config: &SplitConfig)
        ensures
            *config == self.spec_config(),
    {
        &self.config
    }
}

/// The share of `total_fee` for `bps` basis points, rounded down.
fn portion(total_fee: u64, bps: u64) -> (r: u64)
    requires
        bps <= 10_000,
    ensures
        r == share_of(total_fee, bps),
        r <= total_fee,
{
    assert((total_fee as u128) * (bps as u128) <= 0xffff_ffff_ffff_ffff * 10_000)
        by (nonlinear_arith)
        requires
            total_fee <= 0xffff_ffff_ffff_ffff,
            bps <= 10_000,
    ;
    let scaled: u128 = (total_fee as u128) * (bps as u128) / 10_000;
    assert(scaled <= total_fee) by (nonlinear_arith)
        requires
            scaled == (total_fee * bps) / 10_000,
            bps <= 10_000,
    ;
    scaled as u64
}

impl Default for FeeSplit {
    fn default() -> (split: Self)
        ensures
            split.wf(),
            split.spec_config() == default_split_config(),
    {
        FeeSplit::new()
    }
}

} // verus!
