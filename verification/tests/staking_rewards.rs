use trv1::staking::rewards::{calculate_epoch_reward, calculate_reward, BASE_APY_BPS};
use trv1::staking::tiers::LockTier;

#[test]
fn test_zero_amount() {
    assert_eq!(calculate_reward(0, &LockTier::NoLock, 365), 0);
}

#[test]
fn test_zero_epochs() {
    assert_eq!(calculate_reward(1_000_000, &LockTier::NoLock, 0), 0);
}

#[test]
fn test_no_lock_full_year() {
    // 1_000_000 * 500 * 5 * 365 / (100 * 10_000 * 365) = 2,500
    let reward = calculate_reward(1_000_000, &LockTier::NoLock, 365);
    assert_eq!(reward, 2_500);
}

#[test]
fn test_permanent_tier_full_year() {
    // 1_000_000 * 500 * 120 * 365 / (100 * 10_000 * 365) = 60,000
    let reward = calculate_reward(1_000_000, &LockTier::Permanent, 365);
    assert_eq!(reward, 60_000);
}

#[test]
fn test_single_epoch_reward() {
    // 1_000_000 * 500 * 5 * 1 / (100 * 10_000 * 365) = 6
    let reward = calculate_epoch_reward(1_000_000, &LockTier::NoLock);
    assert_eq!(reward, 6);
}

#[test]
fn test_half_year() {
    // 1_000_000 * 500 * 5 * 182 / (100 * 10_000 * 365) = 455_000_000_000 / 365_000_000 = 1246
    let reward = calculate_reward(1_000_000, &LockTier::NoLock, 182);
    assert_eq!(reward, 1_246);
}

#[test]
fn test_large_stake() {
    // 1_000_000_000 * 500 * 120 * 365 / (100 * 10_000 * 365) = 60_000_000
    let reward = calculate_reward(1_000_000_000, &LockTier::Permanent, 365);
    assert_eq!(reward, 60_000_000);
}

#[test]
fn test_very_small_stake() {
    // 100 * 500 * 5 * 1 / (365_000_000) = 0
    let reward = calculate_reward(100, &LockTier::NoLock, 1);
    assert_eq!(reward, 0);
}

#[test]
fn rewards_of_the_middle_tiers() {
    assert_eq!(BASE_APY_BPS, 500);
    assert_eq!(calculate_reward(1_000_000, &LockTier::ThreeMonth, 365), 10_000);
    assert_eq!(calculate_reward(1_000_000, &LockTier::SixMonth, 365), 15_000);
    assert_eq!(calculate_reward(1_000_000, &LockTier::OneYear, 365), 25_000);
}

#[test]
fn reward_grows_with_the_tier() {
    let amount = 10_000_000;
    let epochs = 365;
    let r0 = calculate_reward(amount, &LockTier::NoLock, epochs);
    let r1 = calculate_reward(amount, &LockTier::ThreeMonth, epochs);
    let r2 = calculate_reward(amount, &LockTier::SixMonth, epochs);
    let r3 = calculate_reward(amount, &LockTier::OneYear, epochs);
    let r4 = calculate_reward(amount, &LockTier::Permanent, epochs);
    assert!(r0 < r1 && r1 < r2 && r2 < r3 && r3 < r4);
}

#[test]
fn epoch_reward_of_the_largest_amount() {
    // u64::MAX * 500 * 120 / 365_000_000, rounded down
    let expected = (u64::MAX as u128 * 60_000 / 365_000_000) as u64;
    assert_eq!(calculate_epoch_reward(u64::MAX, &LockTier::Permanent), expected);
    assert_eq!(calculate_epoch_reward(1_000_000, &LockTier::Permanent), 164);
}
