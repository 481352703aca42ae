use trv1::keys::PublicKey;
use trv1::staking::pool::{is_unlocked, StakingPool};
use trv1::staking::tiers::LockTier;
use trv1::staking::types::StakingError;

fn staker_key(n: u8) -> PublicKey {
    let mut k = [0u8; 32];
    k[0] = n;
    k
}

#[test]
fn test_stake_and_total() {
    let mut pool = StakingPool::new();
    pool.stake(staker_key(1), 1_000_000, LockTier::NoLock).unwrap();
    assert_eq!(pool.total_staked(), 1_000_000);

    pool.stake(staker_key(2), 2_000_000, LockTier::ThreeMonth).unwrap();
    assert_eq!(pool.total_staked(), 3_000_000);
}

#[test]
fn test_stake_zero_amount() {
    let mut pool = StakingPool::new();
    let result = pool.stake(staker_key(1), 0, LockTier::NoLock);
    assert_eq!(result, Err(StakingError::ZeroAmount));
}

#[test]
fn test_unstake_no_lock() {
    let mut pool = StakingPool::new();
    pool.stake(staker_key(1), 1_000_000, LockTier::NoLock).unwrap();

    // NoLock has 0 duration, so epoch 0 >= epoch 0, immediately unlockable.
    pool.unstake(staker_key(1), 500_000).unwrap();
    assert_eq!(pool.total_staked(), 500_000);

    pool.unstake(staker_key(1), 500_000).unwrap();
    assert_eq!(pool.total_staked(), 0);
}

#[test]
fn test_unstake_locked_fails() {
    let mut pool = StakingPool::new();
    pool.stake(staker_key(1), 1_000_000, LockTier::ThreeMonth).unwrap();

    // At epoch 0, the unlock epoch is 90. Cannot unstake yet.
    let result = pool.unstake(staker_key(1), 500_000);
    assert!(matches!(result, Err(StakingError::InsufficientBalance { .. })));
}

#[test]
fn test_unstake_after_lock_expires() {
    let mut pool = StakingPool::new();
    pool.stake(staker_key(1), 1_000_000, LockTier::ThreeMonth).unwrap();

    // Advance to epoch 90 (lock expires).
    pool.set_epoch(90);
    pool.unstake(staker_key(1), 1_000_000).unwrap();
    assert_eq!(pool.total_staked(), 0);
}

#[test]
fn test_permanent_lock_cannot_unstake() {
    let mut pool = StakingPool::new();
    pool.stake(staker_key(1), 1_000_000, LockTier::Permanent).unwrap();

    pool.set_epoch(10_000);
    let result = pool.unstake(staker_key(1), 500_000);
    assert!(matches!(result, Err(StakingError::InsufficientBalance { .. })));
}

#[test]
fn test_unstake_no_stake_found() {
    let mut pool = StakingPool::new();
    let result = pool.unstake(staker_key(99), 100);
    assert_eq!(result, Err(StakingError::NoStakeFound));
}

#[test]
fn test_delegate_and_undelegate() {
    let mut pool = StakingPool::new();
    pool.delegate(staker_key(1), staker_key(2), 500_000, LockTier::NoLock).unwrap();
    assert_eq!(pool.total_staked(), 500_000);

    pool.undelegate(staker_key(1), staker_key(2), 200_000).unwrap();
    assert_eq!(pool.total_staked(), 300_000);
}

#[test]
fn test_delegate_locked_undelegate_fails() {
    let mut pool = StakingPool::new();
    pool.delegate(staker_key(1), staker_key(2), 500_000, LockTier::SixMonth).unwrap();

    let result = pool.undelegate(staker_key(1), staker_key(2), 100_000);
    assert!(matches!(result, Err(StakingError::InsufficientBalance { .. })));
}

#[test]
fn test_delegate_undelegate_after_lock() {
    let mut pool = StakingPool::new();
    pool.delegate(staker_key(1), staker_key(2), 500_000, LockTier::SixMonth).unwrap();

    pool.set_epoch(180);
    pool.undelegate(staker_key(1), staker_key(2), 500_000).unwrap();
    assert_eq!(pool.total_staked(), 0);
}

#[test]
fn test_undelegate_not_found() {
    let mut pool = StakingPool::new();
    let result = pool.undelegate(staker_key(1), staker_key(2), 100);
    assert_eq!(result, Err(StakingError::NoDelegationFound));
}

#[test]
fn test_voting_power_direct_stake() {
    let mut pool = StakingPool::new();
    pool.stake(staker_key(1), 1_000_000, LockTier::NoLock).unwrap();

    // 1_000_000 * 1.0 = 1_000_000
    assert_eq!(pool.get_voting_power(&staker_key(1)), 1_000_000);
}

#[test]
fn test_voting_power_tiered() {
    let mut pool = StakingPool::new();
    pool.stake(staker_key(1), 1_000_000, LockTier::Permanent).unwrap();

    // 1_000_000 * 5.0 = 5_000_000
    assert_eq!(pool.get_voting_power(&staker_key(1)), 5_000_000);
}

#[test]
fn test_voting_power_with_delegations() {
    let mut pool = StakingPool::new();
    // Validator has own stake.
    pool.stake(staker_key(1), 1_000_000, LockTier::NoLock).unwrap();
    // Delegator delegates to validator.
    pool.delegate(staker_key(2), staker_key(1), 500_000, LockTier::OneYear).unwrap();

    // Validator power: 1_000_000 * 1.0 + 500_000 * 3.0 = 2_500_000
    assert_eq!(pool.get_voting_power(&staker_key(1)), 2_500_000);
}

#[test]
fn test_multiple_stakes_same_staker() {
    let mut pool = StakingPool::new();
    pool.stake(staker_key(1), 500_000, LockTier::NoLock).unwrap();
    pool.stake(staker_key(1), 500_000, LockTier::ThreeMonth).unwrap();
    assert_eq!(pool.total_staked(), 1_000_000);

    // Voting power: 500_000 * 1.0 + 500_000 * 1.5 = 1_250_000
    assert_eq!(pool.get_voting_power(&staker_key(1)), 1_250_000);
}

#[test]
fn test_partial_unstake() {
    let mut pool = StakingPool::new();
    pool.stake(staker_key(1), 1_000_000, LockTier::NoLock).unwrap();
    pool.unstake(staker_key(1), 300_000).unwrap();
    assert_eq!(pool.total_staked(), 700_000);
    assert_eq!(pool.get_voting_power(&staker_key(1)), 700_000);
}

#[test]
fn test_mixed_locked_unlocked_unstake() {
    let mut pool = StakingPool::new();
    pool.stake(staker_key(1), 500_000, LockTier::NoLock).unwrap();
    pool.stake(staker_key(1), 500_000, LockTier::ThreeMonth).unwrap();

    // Can only unstake the NoLock portion.
    pool.unstake(staker_key(1), 500_000).unwrap();
    assert_eq!(pool.total_staked(), 500_000);

    // Trying to unstake more fails since the rest is locked.
    let result = pool.unstake(staker_key(1), 100);
    assert!(matches!(result, Err(StakingError::InsufficientBalance { .. })));
}

#[test]
fn epoch_rewards_by_staker_and_by_delegation() {
    let mut pool = StakingPool::new();
    pool.stake(staker_key(1), 1_000_000, LockTier::NoLock).unwrap();
    pool.stake(staker_key(2), 1_000_000, LockTier::Permanent).unwrap();
    pool.stake(staker_key(1), 2_000_000, LockTier::Permanent).unwrap();
    pool.stake(staker_key(3), 100, LockTier::NoLock).unwrap();
    pool.delegate(staker_key(4), staker_key(1), 1_000_000, LockTier::OneYear).unwrap();

    let rewards = pool.distribute_epoch_rewards();
    // staker 1: 6 + 328; staker 2: 164; staker 3: 0 is left out; delegator 4: 68
    assert_eq!(
        rewards,
        vec![(staker_key(1), 334), (staker_key(2), 164), (staker_key(4), 68)]
    );
}

#[test]
fn unstake_takes_the_earliest_entries_first() {
    let mut pool = StakingPool::new();
    pool.stake(staker_key(1), 300, LockTier::NoLock).unwrap();
    pool.stake(staker_key(1), 500, LockTier::Permanent).unwrap();
    pool.stake(staker_key(1), 200, LockTier::NoLock).unwrap();
    // 400 of the 500 unlocked: all of the first entry, 100 of the third.
    pool.unstake(staker_key(1), 400).unwrap();
    assert_eq!(pool.total_staked(), 600);
    // 500 * 5.0 + 100 * 1.0
    assert_eq!(pool.get_voting_power(&staker_key(1)), 2_600);
    assert_eq!(
        pool.unstake(staker_key(1), 101),
        Err(StakingError::InsufficientBalance { have: 100, need: 101 })
    );
    assert_eq!(pool.unstake(staker_key(1), 0), Err(StakingError::ZeroAmount));
}

#[test]
fn stake_overflow_changes_nothing() {
    let mut pool = StakingPool::new();
    pool.stake(staker_key(1), u64::MAX - 10, LockTier::NoLock).unwrap();
    assert_eq!(pool.stake(staker_key(2), 11, LockTier::NoLock), Err(StakingError::Overflow));
    assert_eq!(pool.delegate(staker_key(2), staker_key(1), 11, LockTier::NoLock), Err(StakingError::Overflow));
    assert_eq!(pool.total_staked(), u64::MAX - 10);
    assert_eq!(pool.get_voting_power(&staker_key(2)), 0);
    assert_eq!(pool.delegate(staker_key(2), staker_key(1), 0, LockTier::NoLock), Err(StakingError::ZeroAmount));
}

#[test]
fn voting_power_is_capped() {
    let mut pool = StakingPool::new();
    pool.stake(staker_key(1), u64::MAX / 2, LockTier::SixMonth).unwrap();
    pool.delegate(staker_key(2), staker_key(1), u64::MAX / 4, LockTier::SixMonth).unwrap();
    assert_eq!(pool.get_voting_power(&staker_key(1)), u64::MAX);
}

#[test]
fn unlock_rule() {
    assert!(!is_unlocked(None, u64::MAX));
    assert!(is_unlocked(Some(90), 90));
    assert!(!is_unlocked(Some(90), 89));
    let mut pool = StakingPool::new();
    pool.set_epoch(7);
    assert_eq!(pool.current_epoch(), 7);
    assert_eq!(
        StakingError::StillLocked { unlock_epoch: 90, current_epoch: 7 }.to_string(),
        "stake is still locked until epoch 90, current epoch is 7"
    );
}
