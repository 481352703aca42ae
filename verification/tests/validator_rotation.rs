use trv1::keymap::KeyMap;
use trv1::keys::PublicKey;
use trv1::staking::pool::StakingPool;
use trv1::staking::tiers::LockTier;
use trv1::validator_set::rotation::{jail, rotate, sort_by_stake, unjail};
use trv1::validator_set::types::{ValidatorInfo, ValidatorSetError, ValidatorStatus};

fn rot_pubkey(n: u8) -> PublicKey {
    let mut k = [0u8; 32];
    k[0] = n;
    k
}

fn rot_validator(n: u8, stake: u64, status: ValidatorStatus) -> ValidatorInfo {
    ValidatorInfo {
        pubkey: rot_pubkey(n),
        stake,
        commission_rate: 500,
        status,
        performance_score: 10_000,
        join_height: 0,
    }
}

fn rot_pool(entries: &[(u8, u64, LockTier)]) -> StakingPool {
    let mut pool = StakingPool::new();
    for &(n, amount, tier) in entries {
        pool.stake(rot_pubkey(n), amount, tier).unwrap();
    }
    pool
}

#[test]
fn sort_by_stake_descending() {
    let pool = rot_pool(&[
        (1, 100, LockTier::NoLock),
        (2, 300, LockTier::NoLock),
        (3, 200, LockTier::NoLock),
    ]);

    let validators = vec![
        rot_validator(1, 100, ValidatorStatus::Active),
        rot_validator(2, 300, ValidatorStatus::Active),
        rot_validator(3, 200, ValidatorStatus::Active),
    ];

    let ranked = sort_by_stake(&validators, &pool);
    assert_eq!(ranked[0].pubkey, rot_pubkey(2)); // 300
    assert_eq!(ranked[1].pubkey, rot_pubkey(3)); // 200
    assert_eq!(ranked[2].pubkey, rot_pubkey(1)); // 100
}

#[test]
fn rotation_swaps_stronger_standby_for_weaker_active() {
    let pool = rot_pool(&[
        (1, 100, LockTier::NoLock),  // active, weakest
        (2, 200, LockTier::NoLock),  // active
        (3, 500, LockTier::NoLock),  // standby, strongest
    ]);

    let mut validators: KeyMap<ValidatorInfo> = KeyMap::new();
    validators.insert(rot_pubkey(1), rot_validator(1, 100, ValidatorStatus::Active));
    validators.insert(rot_pubkey(2), rot_validator(2, 200, ValidatorStatus::Active));
    validators.insert(rot_pubkey(3), rot_validator(3, 500, ValidatorStatus::Standby));

    let swaps = rotate(&mut validators, &pool, 2);

    // Validator 3 (500 stake) should replace validator 1 (100 stake).
    assert_eq!(swaps.len(), 1);
    assert_eq!(swaps[0], (rot_pubkey(3), rot_pubkey(1)));

    assert_eq!(validators.get(&rot_pubkey(3)).unwrap().status, ValidatorStatus::Active);
    assert_eq!(validators.get(&rot_pubkey(1)).unwrap().status, ValidatorStatus::Standby);
}

#[test]
fn rotation_no_swap_when_all_active_stronger() {
    let pool = rot_pool(&[
        (1, 500, LockTier::NoLock),
        (2, 300, LockTier::NoLock),
        (3, 100, LockTier::NoLock),
    ]);

    let mut validators: KeyMap<ValidatorInfo> = KeyMap::new();
    validators.insert(rot_pubkey(1), rot_validator(1, 500, ValidatorStatus::Active));
    validators.insert(rot_pubkey(2), rot_validator(2, 300, ValidatorStatus::Active));
    validators.insert(rot_pubkey(3), rot_validator(3, 100, ValidatorStatus::Standby));

    let swaps = rotate(&mut validators, &pool, 2);
    assert!(swaps.is_empty());
}

#[test]
fn rotation_promotes_standby_when_cap_not_full() {
    let pool = rot_pool(&[
        (1, 500, LockTier::NoLock),
        (2, 300, LockTier::NoLock),
    ]);

    let mut validators: KeyMap<ValidatorInfo> = KeyMap::new();
    validators.insert(rot_pubkey(1), rot_validator(1, 500, ValidatorStatus::Active));
    validators.insert(rot_pubkey(2), rot_validator(2, 300, ValidatorStatus::Standby));

    let _ = rotate(&mut validators, &pool, 5);

    // Validator 2 should be promoted since cap (5) > active count (1).
    assert_eq!(validators.get(&rot_pubkey(2)).unwrap().status, ValidatorStatus::Active);
}

#[test]
fn jail_and_unjail() {
    let mut validators: KeyMap<ValidatorInfo> = KeyMap::new();
    validators.insert(rot_pubkey(1), rot_validator(1, 100, ValidatorStatus::Active));

    jail(&mut validators, &rot_pubkey(1)).unwrap();
    assert_eq!(validators.get(&rot_pubkey(1)).unwrap().status, ValidatorStatus::Jailed);

    unjail(&mut validators, &rot_pubkey(1)).unwrap();
    assert_eq!(validators.get(&rot_pubkey(1)).unwrap().status, ValidatorStatus::Standby);
}

#[test]
fn unjail_non_jailed_fails() {
    let mut validators: KeyMap<ValidatorInfo> = KeyMap::new();
    validators.insert(rot_pubkey(1), rot_validator(1, 100, ValidatorStatus::Active));

    let result = unjail(&mut validators, &rot_pubkey(1));
    assert_eq!(result, Err(ValidatorSetError::NotJailed));
}

#[test]
fn jail_not_found() {
    let mut validators: KeyMap<ValidatorInfo> = KeyMap::new();
    let result = jail(&mut validators, &rot_pubkey(99));
    assert_eq!(result, Err(ValidatorSetError::NotFound(rot_pubkey(99))));
}

#[test]
fn rotation_breaks_ties_by_key_and_leaves_jailed_alone() {
    let pool = rot_pool(&[
        (1, 100, LockTier::NoLock),
        (2, 100, LockTier::NoLock),
        (3, 300, LockTier::NoLock),
        (4, 300, LockTier::NoLock),
        (5, 900, LockTier::NoLock),
    ]);
    let mut validators: KeyMap<ValidatorInfo> = KeyMap::new();
    validators.insert(rot_pubkey(1), rot_validator(1, 100, ValidatorStatus::Active));
    validators.insert(rot_pubkey(2), rot_validator(2, 100, ValidatorStatus::Active));
    validators.insert(rot_pubkey(3), rot_validator(3, 300, ValidatorStatus::Standby));
    validators.insert(rot_pubkey(4), rot_validator(4, 300, ValidatorStatus::Standby));
    validators.insert(rot_pubkey(5), rot_validator(5, 900, ValidatorStatus::Jailed));

    let swaps = rotate(&mut validators, &pool, 2);
    // The strongest standby is 3 (the smaller key of the two with 300), the
    // weakest active is 2 (the larger key of the two with 100).
    assert_eq!(swaps, vec![(rot_pubkey(3), rot_pubkey(2)), (rot_pubkey(4), rot_pubkey(1))]);
    assert_eq!(validators.get(&rot_pubkey(5)).unwrap().status, ValidatorStatus::Jailed);
    assert_eq!(validators.get(&rot_pubkey(1)).unwrap().status, ValidatorStatus::Standby);
    assert_eq!(validators.get(&rot_pubkey(4)).unwrap().status, ValidatorStatus::Active);
}

#[test]
fn rotation_does_not_swap_on_equal_power() {
    let pool = rot_pool(&[(1, 100, LockTier::NoLock), (2, 100, LockTier::NoLock)]);
    let mut validators: KeyMap<ValidatorInfo> = KeyMap::new();
    validators.insert(rot_pubkey(1), rot_validator(1, 100, ValidatorStatus::Standby));
    validators.insert(rot_pubkey(2), rot_validator(2, 100, ValidatorStatus::Active));
    assert!(rotate(&mut validators, &pool, 1).is_empty());
    assert_eq!(validators.get(&rot_pubkey(1)).unwrap().status, ValidatorStatus::Standby);
}

#[test]
fn sort_by_stake_orders_equal_power_by_key() {
    let pool = rot_pool(&[(1, 100, LockTier::NoLock), (2, 100, LockTier::NoLock), (3, 50, LockTier::Permanent)]);
    let validators = vec![
        rot_validator(2, 100, ValidatorStatus::Active),
        rot_validator(1, 100, ValidatorStatus::Active),
        rot_validator(3, 50, ValidatorStatus::Active),
    ];
    let ranked = sort_by_stake(&validators, &pool);
    assert_eq!(ranked[0].pubkey, rot_pubkey(3));
    assert_eq!(ranked[0].effective_stake, 250);
    assert_eq!(ranked[1].pubkey, rot_pubkey(1));
    assert_eq!(ranked[2].pubkey, rot_pubkey(2));
}
