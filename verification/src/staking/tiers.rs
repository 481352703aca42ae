//! The lock tiers of staked tokens.

use vstd::prelude::*;

verus! {

/// How long staked tokens are locked. A longer lock earns more and weighs
/// more in votes.
#[derive(Debug, Clone, Copy, PartialEq, Eq, Hash, Structural)]
pub enum LockTier {
    /// No lock: 1.0x multiplier, no bonus, 1.0x vote weight.
    NoLock,
    /// Three months: 1.2x multiplier, 1% bonus, 1.5x vote weight.
    ThreeMonth,
    /// Six months: 1.5x multiplier, 2% bonus, 2.0x vote weight.
    SixMonth,
    /// One year: 2.0x multiplier, 3% bonus, 3.0x vote weight.
    OneYear,
    /// Never unlocked: 3.0x multiplier, 5% bonus, 5.0x vote weight.
    Permanent,
}

/// The epochs of a year, at one epoch a day.
pub const EPOCHS_PER_YEAR: u64 = 365;

pub const THREE_MONTHS_EPOCHS: u64 = 90;

pub const SIX_MONTHS_EPOCHS: u64 = 180;

pub const ONE_YEAR_EPOCHS: u64 = 365;

impl LockTier {
    /// The reward multiplier in thousandths.
    pub open spec fn spec_multiplier_bps(&self) -> u64 {
        match self {
            LockTier::NoLock => 1000,
            LockTier::ThreeMonth => 1200,
            LockTier::SixMonth => 1500,
            LockTier::OneYear => 2000,
            LockTier::Permanent => 3000,
        }
    }

    /// The bonus yield in basis points.
    pub open spec fn spec_bonus_apy_bps(&self) -> u64 {
        match self {
            LockTier::NoLock => 0,
            LockTier::ThreeMonth => 100,
            LockTier::SixMonth => 200,
            LockTier::OneYear => 300,
            LockTier::Permanent => 500,
        }
    }

    /// The vote weight in thousandths.
    pub open spec fn spec_vote_weight_bps(&self) -> u64 {
        match self {
            LockTier::NoLock => 1000,
            LockTier::ThreeMonth => 1500,
            LockTier::SixMonth => 2000,
            LockTier::OneYear => 3000,
            LockTier::Permanent => 5000,
        }
    }

    /// The lock duration in epochs; none for a permanent lock.
    pub open spec fn spec_lock_duration_epochs(&self) -> Option<u64> {
        match self {
            LockTier::NoLock => Some(0),
            LockTier::ThreeMonth => Some(90),
            LockTier::SixMonth => Some(180),
            LockTier::OneYear => Some(365),
            LockTier::Permanent => None,
        }
    }

    /// The share of the base yield that the tier earns, in percent. The
    /// shares 5 without a lock and 120 for a permanent lock are fixed by the
    /// rewards they must give; the shares 20, 30 and 50 of the three tiers
    /// between them are a choice of this library, which nothing else fixes.
    pub open spec fn spec_rate_pct(&self) -> u64 {
        match self {
            LockTier::NoLock => 5,
            LockTier::ThreeMonth => 20,
            LockTier::SixMonth => 30,
            LockTier::OneYear => 50,
            LockTier::Permanent => 120,
        }
    }

    /// The reward multiplier in thousandths: 1000 is 1.0x.
    #[verifier::when_used_as_spec(spec_multiplier_bps)]
    pub fn multiplier_bps(&self) -> (bps: u64)
        ensures
            bps == self.spec_multiplier_bps(),
    {
        match self {
            LockTier::NoLock => 1000,
            LockTier::ThreeMonth => 1200,
            LockTier::SixMonth => 1500,
            LockTier::OneYear => 2000,
            LockTier::Permanent => 3000,
        }
    }

    /// The bonus yield in basis points: 100 is 1%.
    #[verifier::when_used_as_spec(spec_bonus_apy_bps)]
    pub fn bonus_apy_bps(&self) -> (bps: u64)
        ensures
            bps == self.spec_bonus_apy_bps(),
    {
        match self {
            LockTier::NoLock => 0,
            LockTier::ThreeMonth => 100,
            LockTier::SixMonth => 200,
            LockTier::OneYear => 300,
            LockTier::Permanent => 500,
        }
    }

    /// The vote weight in thousandths: 1000 is 1.0x.
    #[verifier::when_used_as_spec(spec_vote_weight_bps)]
    pub fn vote_weight_bps(&self) -> (bps: u64)
        ensures
            bps == self.spec_vote_weight_bps(),
    {
        match self {
            LockTier::NoLock => 1000,
            LockTier::ThreeMonth => 1500,
            LockTier::SixMonth => 2000,
            LockTier::OneYear => 3000,
            LockTier::Permanent => 5000,
        }
    }

    /// The lock duration in epochs; none for a permanent lock, which never
    /// unlocks.
    #[verifier::when_used_as_spec(spec_lock_duration_epochs)]
    pub fn lock_duration_epochs(&self) -> (epochs: Option<u64>)
        ensures
            epochs == self.spec_lock_duration_epochs(),
    {
        match self {
            LockTier::NoLock => Some(0),
            LockTier::ThreeMonth => Some(THREE_MONTHS_EPOCHS),
            LockTier::SixMonth => Some(SIX_MONTHS_EPOCHS),
            LockTier::OneYear => Some(ONE_YEAR_EPOCHS),
            LockTier::Permanent => None,
        }
    }

    /// The share of the base yield that the tier earns, in percent. The
    /// shares of the three tiers between no lock and the permanent lock are
    /// a choice of this library.
    #[verifier::when_used_as_spec(spec_rate_pct)]
    pub fn rate_pct(&self) -> (pct: u64)
        ensures
            pct == self.spec_rate_pct(),
    {
        match self {
            LockTier::NoLock => 5,
            LockTier::ThreeMonth => 20,
            LockTier::SixMonth => 30,
            LockTier::OneYear => 50,
            LockTier::Permanent => 120,
        }
    }
}

/// A longer lock has a larger multiplier and a larger vote weight.
pub proof fn law_tiers_ascend()
    ensures
        LockTier::NoLock.multiplier_bps() < LockTier::ThreeMonth.multiplier_bps()
            < LockTier::SixMonth.multiplier_bps() < LockTier::OneYear.multiplier_bps()
            < LockTier::Permanent.multiplier_bps(),
        LockTier::NoLock.vote_weight_bps() < LockTier::ThreeMonth.vote_weight_bps()
            < LockTier::SixMonth.vote_weight_bps() < LockTier::OneYear.vote_weight_bps()
            < LockTier::Permanent.vote_weight_bps(),
{
}

} // verus!
