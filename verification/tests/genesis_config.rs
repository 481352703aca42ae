use sha2::{Digest, Sha256};
use trv1::genesis::config::GenesisConfig;
use trv1::genesis::types::{ChainParams, GenesisAccount, GenesisError, GenesisValidator};

fn fixed_time() -> String {
    "2025-01-01T00:00:00Z".to_string()
}

fn testnet() -> GenesisConfig {
    GenesisConfig::default_testnet(fixed_time())
}

#[test]
fn default_testnet_is_valid() {
    let config = testnet();
    config.validate().unwrap();
    assert_eq!(config.validators.len(), 4);
    assert_eq!(config.accounts.len(), 4);
    assert_eq!(config.chain_id, "trv1-testnet-1");
}

#[test]
fn genesis_hash_is_deterministic() {
    let mut c1 = testnet();
    let mut c2 = c1.clone();
    c1.genesis_time = fixed_time();
    c2.genesis_time = fixed_time();

    let h1 = c1.compute_genesis_hash();
    let h2 = c2.compute_genesis_hash();
    assert_eq!(h1, h2);
    assert_ne!(h1, [0u8; 32]);
}

#[test]
fn genesis_hash_changes_with_data() {
    let mut c1 = testnet();
    c1.genesis_time = fixed_time();

    let h1 = c1.compute_genesis_hash();

    let mut c2 = c1.clone();
    c2.chain_id = "different-chain".to_string();
    let h2 = c2.compute_genesis_hash();
    assert_ne!(h1, h2);
}

#[test]
fn validate_no_validators_fails() {
    let mut config = testnet();
    config.validators.clear();
    assert!(matches!(config.validate(), Err(GenesisError::NoValidators)));
}

#[test]
fn validate_zero_stake_fails() {
    let mut config = testnet();
    config.validators[0].initial_stake = 0;
    assert!(matches!(
        config.validate(),
        Err(GenesisError::ZeroStake { index: 0 })
    ));
}

#[test]
fn validate_invalid_commission_fails() {
    let mut config = testnet();
    config.validators[1].commission_rate = 10_001;
    assert!(matches!(
        config.validate(),
        Err(GenesisError::InvalidCommission { index: 1 })
    ));
}

#[test]
fn validate_bad_fee_split_fails() {
    let mut config = testnet();
    config.chain_params.fee_launch_burn_bps = 5000;
    assert!(matches!(
        config.validate(),
        Err(GenesisError::InvalidFeeSplit(_))
    ));
}

#[test]
fn validate_zero_epoch_length_fails() {
    let mut config = testnet();
    config.chain_params.epoch_length = 0;
    assert!(matches!(
        config.validate(),
        Err(GenesisError::ZeroEpochLength)
    ));
}

#[test]
fn validate_duplicate_validators_fails() {
    let mut config = testnet();
    config.validators[1].pubkey = config.validators[0].pubkey;
    assert!(matches!(
        config.validate(),
        Err(GenesisError::DuplicateValidator(1))
    ));
}

#[test]
fn validate_zero_block_time_fails() {
    let mut config = testnet();
    config.chain_params.block_time_ms = 0;
    assert_eq!(config.validate(), Err(GenesisError::ZeroBlockTime));
}

#[test]
fn validate_zero_max_validators_fails() {
    let mut config = testnet();
    config.chain_params.max_validators = 0;
    assert_eq!(config.validate(), Err(GenesisError::ZeroMaxValidators));
}

#[test]
fn validate_reports_the_wrong_sum() {
    let mut config = testnet();
    config.chain_params.fee_launch_burn_bps = 5000;
    assert_eq!(config.validate(), Err(GenesisError::InvalidFeeSplit(14_000)));

    let mut config = testnet();
    config.chain_params.fee_maturity_developer_bps = 0;
    assert_eq!(config.validate(), Err(GenesisError::InvalidFeeSplit(7_500)));
}

#[test]
fn validate_checks_in_order() {
    // A duplicate key is found before a zero stake of the same validator,
    // and the validators are checked before the parameters.
    let mut config = testnet();
    config.validators[1].pubkey = config.validators[0].pubkey;
    config.validators[1].initial_stake = 0;
    config.chain_params.epoch_length = 0;
    assert_eq!(config.validate(), Err(GenesisError::DuplicateValidator(1)));

    let mut config = testnet();
    config.validators[2].initial_stake = 0;
    config.validators[2].commission_rate = 20_000;
    assert_eq!(config.validate(), Err(GenesisError::ZeroStake { index: 2 }));
}

#[test]
fn canonical_json_of_a_small_genesis() {
    let mut key = [0u8; 32];
    key[0] = 0xab;
    key[31] = 0x01;
    let config = GenesisConfig {
        chain_id: "c".to_string(),
        genesis_time: "t".to_string(),
        chain_params: ChainParams::default(),
        validators: vec![GenesisValidator { pubkey: key, initial_stake: 7, commission_rate: 5 }],
        accounts: vec![
            GenesisAccount { pubkey: key, balance: 9 },
            GenesisAccount { pubkey: [0u8; 32], balance: 0 },
        ],
        genesis_hash: [3u8; 32],
    };
    let hex = "ab00000000000000000000000000000000000000000000000000000000000001";
    let zero = "0000000000000000000000000000000000000000000000000000000000000000";
    let expected = format!(
        "{{\"chain_id\":\"c\",\"genesis_time\":\"t\",\"chain_params\":{{\"chain_id\":\"trv1-devnet\",\"epoch_length\":100,\"block_time_ms\":2000,\"max_validators\":200,\"base_fee_floor\":1,\"fee_launch_burn_bps\":1000,\"fee_launch_validator_bps\":0,\"fee_launch_treasury_bps\":4500,\"fee_launch_developer_bps\":4500,\"fee_maturity_burn_bps\":2500,\"fee_maturity_validator_bps\":2500,\"fee_maturity_treasury_bps\":2500,\"fee_maturity_developer_bps\":2500,\"fee_transition_epochs\":1825,\"slash_double_sign_bps\":5000,\"slash_downtime_bps\":100,\"staking_base_apy\":500}},\"validators\":[{{\"pubkey\":\"{hex}\",\"initial_stake\":7,\"commission_rate\":5}}],\"accounts\":[{{\"pubkey\":\"{hex}\",\"balance\":9}},{{\"pubkey\":\"{zero}\",\"balance\":0}}]}}"
    );
    assert_eq!(config.canonical_json(), expected);
}

#[test]
fn canonical_json_escapes_text() {
    let mut config = testnet();
    config.chain_id = "a\"b\\c\n".to_string();
    let json = config.canonical_json();
    assert!(json.starts_with("{\"chain_id\":\"a\\\"b\\\\c\\n\",\"genesis_time\":\"2025-01-01T00:00:00Z\""));
}

#[test]
fn genesis_hash_ignores_the_hash_field() {
    let c1 = testnet();
    let mut c2 = c1.clone();
    c2.genesis_hash = [0xffu8; 32];
    assert_eq!(c1.compute_genesis_hash(), c2.compute_genesis_hash());
    assert_eq!(c1.genesis_hash, c1.compute_genesis_hash());
}

#[test]
fn genesis_hash_changes_with_each_part() {
    let base = testnet();
    let h = base.compute_genesis_hash();

    let mut c = base.clone();
    c.genesis_time = "2025-01-01T00:00:01Z".to_string();
    assert_ne!(c.compute_genesis_hash(), h);

    let mut c = base.clone();
    c.validators[3].initial_stake += 1;
    assert_ne!(c.compute_genesis_hash(), h);

    let mut c = base.clone();
    c.accounts[0].balance -= 1;
    assert_ne!(c.compute_genesis_hash(), h);

    let mut c = base.clone();
    c.chain_params.staking_base_apy = 501;
    assert_ne!(c.compute_genesis_hash(), h);
}

#[test]
fn genesis_hash_is_sha256_of_the_canonical_json() {
    let config = testnet();
    let json = config.canonical_json();
    let digest: [u8; 32] = Sha256::digest(json.as_bytes()).into();
    assert_eq!(config.compute_genesis_hash(), digest);
    assert_eq!(config.genesis_hash, digest);
}

#[test]
fn default_testnet_keys_are_numbered() {
    let config = testnet();
    for i in 0..4 {
        let mut key = [0u8; 32];
        key[0] = (i + 1) as u8;
        assert_eq!(config.validators[i].pubkey, key);
        assert_eq!(config.validators[i].initial_stake, 10_000_000);
        assert_eq!(config.validators[i].commission_rate, 500);
        assert_eq!(config.accounts[i].pubkey, key);
        assert_eq!(config.accounts[i].balance, 100_000_000);
    }
    assert_eq!(config.genesis_time, fixed_time());
}
