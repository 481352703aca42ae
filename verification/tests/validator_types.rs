use trv1::keys::PublicKey;
use trv1::validator_set::types::{ValidatorInfo, ValidatorSetConfig, ValidatorStatus};

fn types_pubkey(n: u8) -> PublicKey {
    let mut k = [0u8; 32];
    k[0] = n;
    k
}

#[test]
fn effective_stake_with_vote_weight() {
    let info = ValidatorInfo {
        pubkey: types_pubkey(1),
        stake: 1_000_000,
        commission_rate: 500,
        status: ValidatorStatus::Active,
        performance_score: 10_000,
        join_height: 0,
    };
    // 1x vote weight
    assert_eq!(info.effective_stake(1000), 1_000_000);
    // 1.5x vote weight
    assert_eq!(info.effective_stake(1500), 1_500_000);
    // 5x vote weight
    assert_eq!(info.effective_stake(5000), 5_000_000);
}

#[test]
fn default_config() {
    let cfg = ValidatorSetConfig::default();
    assert_eq!(cfg.active_set_cap, 200);
    assert_eq!(cfg.epoch_length, 100);
    assert_eq!(cfg.min_stake, 1_000_000);
}

#[test]
fn validator_status_equality() {
    assert_eq!(ValidatorStatus::Active, ValidatorStatus::Active);
    assert_ne!(ValidatorStatus::Active, ValidatorStatus::Jailed);
}

#[test]
fn effective_stake_keeps_the_low_bits() {
    let info = ValidatorInfo {
        pubkey: types_pubkey(1),
        stake: u64::MAX,
        commission_rate: 0,
        status: ValidatorStatus::Standby,
        performance_score: 10_000,
        join_height: 0,
    };
    assert_eq!(info.effective_stake(1000), u64::MAX);
    assert_eq!(info.effective_stake(2000), ((u64::MAX as u128 * 2) as u64));
    assert_eq!(info.effective_stake(0), 0);
}
