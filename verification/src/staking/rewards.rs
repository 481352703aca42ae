//! Staking rewards, in integer arithmetic.

use vstd::prelude::*;
use crate::staking::tiers::LockTier;

verus! {

/// The base staking yield: 5% a year, in basis points.
pub const BASE_APY_BPS: u64 = 500;

/// What the reward formula divides by: percent, basis points and the epochs
/// of a year.
pub open spec fn reward_denominator() -> nat {
    365_000_000
}

/// The reward of an amount staked in a tier over a number of epochs:
/// `amount * 500 * rate_pct * epochs / (100 * 10_000 * 365)`, rounded down.
pub open spec fn reward_of(amount: u64, tier: LockTier, epochs_elapsed: u64) -> nat {
    (amount as nat * 500 * tier.spec_rate_pct() as nat * epochs_elapsed as nat)
        / reward_denominator()
}

/// The largest product that 128 bits hold.
pub open spec fn product_limit() -> nat {
    0xffff_ffff_ffff_ffff_ffff_ffff_ffff_ffff
}

/// The reward for `amount` staked in `tier` over `epochs_elapsed` epochs, as
/// far as it fits in 64 bits: the low 64 bits of `reward_of`.
pub fn calculate_reward(amount: u64, tier: &LockTier, epochs_elapsed: u64) -> (reward: u64)
    requires
        amount as nat * 500 * tier.spec_rate_pct() as nat * epochs_elapsed as nat
            <= product_limit(),
    ensures
        reward == reward_of(amount, *tier, epochs_elapsed) % 0x1_0000_0000_0000_0000,
        amount == 0 || epochs_elapsed == 0 ==> reward == 0,
{
    if amount == 0 || epochs_elapsed == 0 {
        assert(amount as nat * 500 * tier.spec_rate_pct() as nat * epochs_elapsed as nat == 0)
            by (nonlinear_arith)
            requires
                amount == 0 || epochs_elapsed == 0,
        ;
        return 0;
    }
    let factor: u128 = 500 * (tier.rate_pct() as u128);
    assert((amount as u128) * factor <= 0xffff_ffff_ffff_ffff * 60000) by (nonlinear_arith)
        requires
            factor <= 60000,
            amount <= 0xffff_ffff_ffff_ffff,
    ;
    let scaled: u128 = (amount as u128) * factor;
    assert(scaled == amount as nat * 500 * tier.spec_rate_pct() as nat) by (nonlinear_arith)
        requires
            scaled == (amount as u128) * factor,
            factor == 500 * tier.spec_rate_pct(),
    ;
    assert(scaled * (epochs_elapsed as u128) == amount as nat * 500 * tier.spec_rate_pct() as nat
        * epochs_elapsed as nat) by (nonlinear_arith)
        requires
            scaled == amount as nat * 500 * tier.spec_rate_pct() as nat,
    ;
    let numerator: u128 = scaled * (epochs_elapsed as u128);
    let quotient: u128 = numerator / 365_000_000u128;
    let reward: u64 = #[verifier::truncate]
    (quotient as u64);
    assert(reward == quotient % 0x1_0000_0000_0000_0000) by (bit_vector)
        requires
            reward == quotient as u64,
    ;
    reward
}

/// The reward of one epoch. It is smaller than the amount and always fits.
pub fn calculate_epoch_reward(amount: u64, tier: &LockTier) -> (reward: u64)
    ensures
        reward == reward_of(amount, *tier, 1),
        reward <= amount,
{
    let factor: u128 = 500 * (tier.rate_pct() as u128);
    assert((amount as u128) * factor <= 0xffff_ffff_ffff_ffff * 60000) by (nonlinear_arith)
        requires
            factor <= 60000,
            amount <= 0xffff_ffff_ffff_ffff,
    ;
    let numerator: u128 = (amount as u128) * factor;
    assert(numerator == amount as nat * 500 * tier.spec_rate_pct() as nat * 1) by (nonlinear_arith)
        requires
            numerator == (amount as u128) * factor,
            factor == 500 * tier.spec_rate_pct(),
    ;
    assert(numerator <= (amount as u128) * 60000) by (nonlinear_arith)
        requires
            numerator == (amount as u128) * factor,
            factor <= 60000,
    ;
    let quotient: u128 = numerator / 365_000_000u128;
    quotient as u64
}

} // verus!
