use trv1::rewards::developer::DeveloperRewards;
use trv1::rewards::types::{ContractAddress, RewardEvent, RewardsError};
use trv1::keys::PublicKey;

fn addr(n: u8) -> ContractAddress {
    let mut a = [0u8; 32];
    a[0] = n;
    a
}

fn dev(n: u8) -> PublicKey {
    let mut k = [0u8; 32];
    k[31] = n;
    k
}

#[test]
fn test_register_contract() {
    let mut rewards = DeveloperRewards::new();
    rewards.register_contract(addr(1), dev(1), 100).unwrap();

    let entry = rewards.get_contract(&addr(1)).unwrap();
    assert_eq!(entry.deployer, dev(1));
    assert_eq!(entry.deploy_height, 100);
    assert_eq!(entry.total_fees_earned, 0);
}

#[test]
fn test_register_duplicate() {
    let mut rewards = DeveloperRewards::new();
    rewards.register_contract(addr(1), dev(1), 100).unwrap();
    let result = rewards.register_contract(addr(1), dev(2), 200);
    assert!(matches!(result, Err(RewardsError::AlreadyRegistered(_))));
}

#[test]
fn test_record_fee() {
    let mut rewards = DeveloperRewards::new();
    rewards.register_contract(addr(1), dev(1), 100).unwrap();
    rewards.record_fee(addr(1), 5000).unwrap();

    let entry = rewards.get_contract(&addr(1)).unwrap();
    assert_eq!(entry.total_fees_earned, 5000);
}

#[test]
fn test_record_fee_zero() {
    let mut rewards = DeveloperRewards::new();
    rewards.register_contract(addr(1), dev(1), 100).unwrap();
    let result = rewards.record_fee(addr(1), 0);
    assert_eq!(result, Err(RewardsError::ZeroFeeAmount));
}

#[test]
fn test_record_fee_unknown_contract() {
    let mut rewards = DeveloperRewards::new();
    let result = rewards.record_fee(addr(99), 1000);
    assert!(matches!(result, Err(RewardsError::ContractNotFound(_))));
}

#[test]
fn test_get_developer() {
    let mut rewards = DeveloperRewards::new();
    rewards.register_contract(addr(1), dev(1), 100).unwrap();

    assert_eq!(rewards.get_developer(&addr(1)), Some(dev(1)));
    assert_eq!(rewards.get_developer(&addr(99)), None);
}

#[test]
fn test_get_accumulated_rewards() {
    let mut rewards = DeveloperRewards::new();
    rewards.register_contract(addr(1), dev(1), 100).unwrap();
    rewards.register_contract(addr(2), dev(1), 200).unwrap();
    rewards.register_contract(addr(3), dev(2), 300).unwrap();

    rewards.record_fee(addr(1), 1000).unwrap();
    rewards.record_fee(addr(2), 2000).unwrap();
    rewards.record_fee(addr(3), 3000).unwrap();

    // Dev 1 has contracts 1 and 2.
    assert_eq!(rewards.get_accumulated_rewards(&dev(1)), 3000);
    // Dev 2 has contract 3.
    assert_eq!(rewards.get_accumulated_rewards(&dev(2)), 3000);
    // Unknown dev.
    assert_eq!(rewards.get_accumulated_rewards(&dev(99)), 0);
}

#[test]
fn test_distribute_rewards() {
    let mut rewards = DeveloperRewards::new();
    rewards.register_contract(addr(1), dev(1), 100).unwrap();
    rewards.register_contract(addr(2), dev(2), 200).unwrap();

    rewards.record_fee(addr(1), 1000).unwrap();
    rewards.record_fee(addr(2), 2000).unwrap();

    rewards.set_height(500);
    let events = rewards.distribute_rewards();

    assert_eq!(events.len(), 2);

    let e1 = events.iter().find(|e| e.contract == addr(1)).unwrap();
    assert_eq!(e1.developer, dev(1));
    assert_eq!(e1.amount, 1000);
    assert_eq!(e1.height, 500);

    let e2 = events.iter().find(|e| e.contract == addr(2)).unwrap();
    assert_eq!(e2.developer, dev(2));
    assert_eq!(e2.amount, 2000);
    assert_eq!(e2.height, 500);

    assert_eq!(rewards.total_distributed(), 3000);
}

#[test]
fn test_distribute_clears_pending() {
    let mut rewards = DeveloperRewards::new();
    rewards.register_contract(addr(1), dev(1), 100).unwrap();
    rewards.record_fee(addr(1), 1000).unwrap();

    rewards.distribute_rewards();
    assert_eq!(rewards.get_accumulated_rewards(&dev(1)), 0);

    // Distributing again yields no events.
    let events = rewards.distribute_rewards();
    assert!(events.is_empty());
}

#[test]
fn test_multiple_fee_records() {
    let mut rewards = DeveloperRewards::new();
    rewards.register_contract(addr(1), dev(1), 100).unwrap();

    rewards.record_fee(addr(1), 100).unwrap();
    rewards.record_fee(addr(1), 200).unwrap();
    rewards.record_fee(addr(1), 300).unwrap();

    assert_eq!(rewards.get_accumulated_rewards(&dev(1)), 600);

    let entry = rewards.get_contract(&addr(1)).unwrap();
    assert_eq!(entry.total_fees_earned, 600);
}

#[test]
fn test_total_distributed_accumulates() {
    let mut rewards = DeveloperRewards::new();
    rewards.register_contract(addr(1), dev(1), 100).unwrap();

    rewards.record_fee(addr(1), 1000).unwrap();
    rewards.distribute_rewards();
    assert_eq!(rewards.total_distributed(), 1000);

    rewards.record_fee(addr(1), 500).unwrap();
    rewards.distribute_rewards();
    assert_eq!(rewards.total_distributed(), 1500);
}

#[test]
fn rewards_are_distributed_in_address_order() {
    let mut rewards = DeveloperRewards::new();
    rewards.register_contract([2u8; 32], [9u8; 32], 1).unwrap();
    rewards.register_contract([1u8; 32], [8u8; 32], 1).unwrap();
    rewards.record_fee([2u8; 32], 50).unwrap();
    rewards.record_fee([1u8; 32], 70).unwrap();
    rewards.record_fee([2u8; 32], 5).unwrap();
    rewards.set_height(42);
    assert_eq!(rewards.checked_accumulated_rewards(&[9u8; 32]), Some(55));
    let events = rewards.distribute_rewards();
    assert_eq!(
        events,
        vec![
            RewardEvent { contract: [1u8; 32], developer: [8u8; 32], amount: 70, height: 42 },
            RewardEvent { contract: [2u8; 32], developer: [9u8; 32], amount: 55, height: 42 },
        ]
    );
    assert_eq!(rewards.total_distributed(), 125);
    assert_eq!(rewards.get_contract(&[2u8; 32]).unwrap().total_fees_earned, 55);
}

#[test]
fn record_fee_overflow_changes_nothing() {
    let mut rewards = DeveloperRewards::new();
    rewards.register_contract([1u8; 32], [8u8; 32], 1).unwrap();
    rewards.record_fee([1u8; 32], u64::MAX).unwrap();
    assert_eq!(rewards.record_fee([1u8; 32], 1), Err(RewardsError::Overflow));
    assert_eq!(rewards.get_accumulated_rewards(&[8u8; 32]), u64::MAX);
    assert_eq!(rewards.get_contract(&[1u8; 32]).unwrap().total_fees_earned, u64::MAX);
}
