use trv1::keys::PublicKey;
use trv1::staking::pool::StakingPool;
use trv1::staking::tiers::LockTier;
use trv1::validator_set::manager::{ValidatorSetManager, ACTIVE_SET_CAP};
use trv1::validator_set::types::{ValidatorSetConfig, ValidatorSetError, ValidatorStatus};

fn mgr_pubkey(n: u8) -> PublicKey {
    let mut k = [0u8; 32];
    k[0] = n;
    k
}

fn mgr_setup(
    entries: &[(u8, u64, LockTier)],
    cap: usize,
) -> (StakingPool, ValidatorSetManager) {
    let mut pool = StakingPool::new();
    let mut manager = ValidatorSetManager::with_config(ValidatorSetConfig {
        active_set_cap: cap,
        epoch_length: 100,
        min_stake: 100,
    });

    for &(n, amount, tier) in entries {
        pool.stake(mgr_pubkey(n), amount, tier).unwrap();
        manager
            .register_validator(mgr_pubkey(n), amount, 500, 0)
            .unwrap();
    }
    (pool, manager)
}

#[test]
fn register_validator_active_when_room() {
    let mut manager = ValidatorSetManager::with_config(ValidatorSetConfig {
        active_set_cap: 2,
        min_stake: 100,
        ..Default::default()
    });

    let status = manager.register_validator(mgr_pubkey(1), 1000, 500, 0).unwrap();
    assert_eq!(status, ValidatorStatus::Active);
    assert_eq!(manager.active_count(), 1);
}

#[test]
fn register_validator_standby_when_full() {
    let mut manager = ValidatorSetManager::with_config(ValidatorSetConfig {
        active_set_cap: 1,
        min_stake: 100,
        ..Default::default()
    });

    manager.register_validator(mgr_pubkey(1), 1000, 500, 0).unwrap();
    let status = manager.register_validator(mgr_pubkey(2), 2000, 500, 0).unwrap();
    assert_eq!(status, ValidatorStatus::Standby);
}

#[test]
fn register_duplicate_fails() {
    let mut manager = ValidatorSetManager::new();
    manager
        .register_validator(mgr_pubkey(1), 1_000_000, 500, 0)
        .unwrap();
    let result = manager.register_validator(mgr_pubkey(1), 2_000_000, 500, 0);
    assert_eq!(result, Err(ValidatorSetError::AlreadyRegistered(mgr_pubkey(1))));
}

#[test]
fn register_below_min_stake_fails() {
    let mut manager = ValidatorSetManager::new(); // min_stake = 1_000_000
    let result = manager.register_validator(mgr_pubkey(1), 999, 500, 0);
    assert!(matches!(result, Err(ValidatorSetError::InsufficientStake { .. })));
}

#[test]
fn deregister_validator() {
    let mut manager = ValidatorSetManager::with_config(ValidatorSetConfig {
        min_stake: 100,
        ..Default::default()
    });
    manager.register_validator(mgr_pubkey(1), 1000, 500, 0).unwrap();
    let removed = manager.deregister_validator(&mgr_pubkey(1)).unwrap();
    assert_eq!(removed.pubkey, mgr_pubkey(1));
    assert_eq!(manager.total_count(), 0);
}

#[test]
fn deregister_not_found() {
    let mut manager = ValidatorSetManager::new();
    let result = manager.deregister_validator(&mgr_pubkey(99));
    assert_eq!(result, Err(ValidatorSetError::NotFound(mgr_pubkey(99))));
}

#[test]
fn update_stake() {
    let mut manager = ValidatorSetManager::with_config(ValidatorSetConfig {
        min_stake: 100,
        ..Default::default()
    });
    manager.register_validator(mgr_pubkey(1), 1000, 500, 0).unwrap();
    manager.update_stake(&mgr_pubkey(1), 5000).unwrap();
    assert_eq!(manager.get_validator(&mgr_pubkey(1)).unwrap().stake, 5000);
}

#[test]
fn active_set_cap_200() {
    assert_eq!(ACTIVE_SET_CAP, 200);
    let config = ValidatorSetConfig::default();
    assert_eq!(config.active_set_cap, ACTIVE_SET_CAP);
}

#[test]
fn epoch_rotation_swaps() {
    let (pool, mut manager) = mgr_setup(
        &[
            (1, 100, LockTier::NoLock),   // weakest active
            (2, 200, LockTier::NoLock),   // active
            (3, 500, LockTier::NoLock),   // should start standby since cap=2
        ],
        2,
    );

    // Validator 3 is in standby (registered third, cap=2).
    assert_eq!(manager.get_validator(&mgr_pubkey(3)).unwrap().status, ValidatorStatus::Standby);

    // Rotation should swap 3 in for 1.
    let swaps = manager.epoch_rotation(&pool);
    assert_eq!(swaps.len(), 1);
    assert!(manager.is_active(&mgr_pubkey(3)));
    assert!(!manager.is_active(&mgr_pubkey(1)));
}

#[test]
fn proposer_selection_deterministic() {
    let (pool, manager) = mgr_setup(
        &[
            (1, 1000, LockTier::NoLock),
            (2, 1000, LockTier::NoLock),
        ],
        10,
    );

    // Same height should always give same proposer.
    let first = manager.get_proposer(42, &pool);
    let second = manager.get_proposer(42, &pool);
    assert_eq!(first, second);
    assert!(first.is_some());
}

#[test]
fn proposer_weighted_distribution() {
    let (pool, manager) = mgr_setup(
        &[
            (1, 3000, LockTier::NoLock), // 3000 power
            (2, 1000, LockTier::NoLock), // 1000 power
        ],
        10,
    );

    let total_power = 4000u64;
    let mut count_1 = 0u64;
    let mut count_2 = 0u64;

    for h in 0..total_power {
        match manager.get_proposer(h, &pool) {
            Some(pk) if pk == mgr_pubkey(1) => count_1 += 1,
            Some(pk) if pk == mgr_pubkey(2) => count_2 += 1,
            _ => {}
        }
    }

    // Validator 1 should get ~3x the slots of validator 2.
    assert_eq!(count_1, 3000);
    assert_eq!(count_2, 1000);
}

#[test]
fn proposer_empty_set_returns_none() {
    let pool = StakingPool::new();
    let manager = ValidatorSetManager::new();
    assert_eq!(manager.get_proposer(0, &pool), None);
}

#[test]
fn jail_and_unjail_via_manager() {
    let mut manager = ValidatorSetManager::with_config(ValidatorSetConfig {
        min_stake: 100,
        ..Default::default()
    });
    manager.register_validator(mgr_pubkey(1), 1000, 500, 0).unwrap();

    manager.jail(&mgr_pubkey(1)).unwrap();
    assert_eq!(
        manager.get_validator(&mgr_pubkey(1)).unwrap().status,
        ValidatorStatus::Jailed
    );

    manager.unjail(&mgr_pubkey(1)).unwrap();
    assert_eq!(
        manager.get_validator(&mgr_pubkey(1)).unwrap().status,
        ValidatorStatus::Standby
    );
}

#[test]
fn get_active_set_sorted_by_stake() {
    let (pool, manager) = mgr_setup(
        &[
            (1, 100, LockTier::NoLock),
            (2, 300, LockTier::NoLock),
            (3, 200, LockTier::NoLock),
        ],
        10,
    );

    let active = manager.get_active_set(&pool);
    assert_eq!(active.len(), 3);
    assert_eq!(active[0].pubkey, mgr_pubkey(2)); // 300
    assert_eq!(active[1].pubkey, mgr_pubkey(3)); // 200
    assert_eq!(active[2].pubkey, mgr_pubkey(1)); // 100
}

#[test]
fn rotation_increments_epoch() {
    let (pool, mut manager) = mgr_setup(
        &[(1, 1000, LockTier::NoLock)],
        10,
    );

    assert_eq!(manager.current_epoch(), 0);
    manager.epoch_rotation(&pool);
    assert_eq!(manager.current_epoch(), 1);
}

#[test]
fn proposer_skips_jailed_and_standby() {
    let (pool, mut manager) = mgr_setup(
        &[(1, 100, LockTier::NoLock), (2, 200, LockTier::NoLock), (3, 300, LockTier::NoLock)],
        2,
    );
    // 1 and 2 are active, 3 stands by. Slots: 0..100 for 1, 100..300 for 2.
    assert_eq!(manager.get_proposer(0, &pool), Some(mgr_pubkey(1)));
    assert_eq!(manager.get_proposer(99, &pool), Some(mgr_pubkey(1)));
    assert_eq!(manager.get_proposer(100, &pool), Some(mgr_pubkey(2)));
    assert_eq!(manager.get_proposer(299, &pool), Some(mgr_pubkey(2)));
    assert_eq!(manager.get_proposer(300, &pool), Some(mgr_pubkey(1)));
    manager.jail(&mgr_pubkey(1)).unwrap();
    for h in 0..50 {
        assert_eq!(manager.get_proposer(h, &pool), Some(mgr_pubkey(2)));
    }
    manager.jail(&mgr_pubkey(2)).unwrap();
    assert_eq!(manager.get_proposer(0, &pool), None);
    assert_eq!(manager.get_jailed_set().len(), 2);
    assert_eq!(manager.get_standby_set().len(), 1);
}

#[test]
fn proposer_without_voting_power_is_none() {
    let pool = StakingPool::new();
    let mut manager = ValidatorSetManager::with_config(ValidatorSetConfig {
        active_set_cap: 5,
        epoch_length: 100,
        min_stake: 1,
    });
    manager.register_validator(mgr_pubkey(1), 1000, 0, 0).unwrap();
    assert_eq!(manager.get_proposer(3, &pool), None);
}

#[test]
fn rotation_fills_up_to_the_cap() {
    let (pool, mut manager) = mgr_setup(
        &[(1, 100, LockTier::NoLock), (2, 200, LockTier::NoLock), (3, 300, LockTier::NoLock), (4, 150, LockTier::NoLock)],
        1,
    );
    assert_eq!(manager.active_count(), 1);
    let swaps = manager.epoch_rotation(&pool);
    assert_eq!(swaps, vec![(mgr_pubkey(3), mgr_pubkey(1))]);
    assert_eq!(manager.active_count(), 1);
    manager.jail(&mgr_pubkey(3)).unwrap();
    assert_eq!(manager.active_count(), 0);
    let swaps = manager.epoch_rotation(&pool);
    assert!(swaps.is_empty());
    assert!(manager.is_active(&mgr_pubkey(2)));
    assert_eq!(manager.active_count(), 1);
    assert_eq!(manager.total_count(), 4);
    assert_eq!(manager.current_epoch(), 2);
    assert_eq!(manager.unjail(&mgr_pubkey(1)), Err(ValidatorSetError::NotJailed));
}

#[test]
fn registered_validator_starts_with_full_score() {
    let mut manager = ValidatorSetManager::with_config(ValidatorSetConfig {
        active_set_cap: 1,
        epoch_length: 100,
        min_stake: 100,
    });
    assert_eq!(
        manager.register_validator(mgr_pubkey(1), 99, 500, 7),
        Err(ValidatorSetError::InsufficientStake { have: 99, need: 100 })
    );
    manager.register_validator(mgr_pubkey(1), 100, 500, 7).unwrap();
    let info = *manager.get_validator(&mgr_pubkey(1)).unwrap();
    assert_eq!(info.performance_score, 10_000);
    assert_eq!(info.join_height, 7);
    assert_eq!(info.commission_rate, 500);
    assert_eq!(info.status, ValidatorStatus::Active);
    manager.get_validator_mut(&mgr_pubkey(1)).unwrap().performance_score = 9_000;
    assert_eq!(manager.get_validator(&mgr_pubkey(1)).unwrap().performance_score, 9_000);
    assert_eq!(manager.validators().len(), 1);
    assert_eq!(manager.update_stake(&mgr_pubkey(9), 1), Err(ValidatorSetError::NotFound(mgr_pubkey(9))));
}
