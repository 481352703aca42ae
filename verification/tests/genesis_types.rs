use trv1::genesis::types::ChainParams;

#[test]
fn default_chain_params() {
    let params = ChainParams::default();
    assert_eq!(params.max_validators, 200);
    assert_eq!(params.staking_base_apy, 500);
    assert!(params.validate_fee_split());
}

#[test]
fn fee_split_validation() {
    let mut params = ChainParams::default();
    assert!(params.validate_fee_split());

    // Breaking launch sum should fail.
    params.fee_launch_burn_bps = 5000;
    assert!(!params.validate_fee_split());

    // Fix launch, break maturity.
    params.fee_launch_burn_bps = 1000;
    params.fee_maturity_burn_bps = 5000;
    assert!(!params.validate_fee_split());
}

#[test]
fn default_chain_params_in_full() {
    let p = ChainParams::default();
    assert_eq!(p.chain_id, "trv1-devnet");
    assert_eq!(p.epoch_length, 100);
    assert_eq!(p.block_time_ms, 2000);
    assert_eq!(p.base_fee_floor, 1);
    assert_eq!(
        (p.fee_launch_burn_bps, p.fee_launch_validator_bps, p.fee_launch_treasury_bps, p.fee_launch_developer_bps),
        (1000, 0, 4500, 4500)
    );
    assert_eq!(
        (p.fee_maturity_burn_bps, p.fee_maturity_validator_bps, p.fee_maturity_treasury_bps, p.fee_maturity_developer_bps),
        (2500, 2500, 2500, 2500)
    );
    assert_eq!(p.fee_transition_epochs, 1825);
    assert_eq!(p.slash_double_sign_bps, 5000);
    assert_eq!(p.slash_downtime_bps, 100);
}

#[test]
fn fee_split_sums_that_overflow_are_invalid() {
    let mut params = ChainParams::default();
    params.fee_launch_burn_bps = u64::MAX;
    params.fee_launch_validator_bps = 10_001;
    assert!(!params.validate_fee_split());
}
