use trv1::fees::eip1559::FeeMarket;
use trv1::fees::types::{FeeConfig, FeeError, SplitConfig, SplitRatios, TransactionFee};

fn default_market() -> FeeMarket {
    FeeMarket::new(FeeConfig::default(), 100).unwrap()
}

#[test]
fn test_initial_base_fee() {
    let market = default_market();
    assert_eq!(market.current_base_fee(), 100);
}

#[test]
fn test_base_fee_floor_enforcement() {
    let config = FeeConfig {
        base_fee_floor: 50,
        ..FeeConfig::default()
    };
    // Initial base fee below floor gets clamped.
    let market = FeeMarket::new(config, 10).unwrap();
    assert_eq!(market.current_base_fee(), 50);
}

#[test]
fn test_base_fee_no_change_at_target() {
    let mut market = default_market();
    let target = market.config().target_gas_per_block;
    market.update_base_fee(target);
    assert_eq!(market.current_base_fee(), 100);
}

#[test]
fn test_base_fee_increases_above_target() {
    let mut market = default_market();
    let target = market.config().target_gas_per_block;
    // Use double the target gas (max).
    market.update_base_fee(target * 2);
    // Delta = 100 * (target) / (target * 8) = 100/8 = 12 (12.5%)
    assert_eq!(market.current_base_fee(), 112);
}

#[test]
fn test_base_fee_decreases_below_target() {
    let mut market = default_market();
    // Use zero gas.
    market.update_base_fee(0);
    // Delta = 100 * target / (target * 8) = 100/8 = 12 (12.5%)
    assert_eq!(market.current_base_fee(), 88);
}

#[test]
fn test_base_fee_small_increase() {
    let mut market = default_market();
    let target = market.config().target_gas_per_block;
    // Use slightly above target.
    market.update_base_fee(target + target / 10); // +10%
    // Delta = 100 * (target/10) / (target * 8) = 100/80 = 1
    assert_eq!(market.current_base_fee(), 101);
}

#[test]
fn test_base_fee_does_not_go_below_floor() {
    let config = FeeConfig {
        base_fee_floor: 50,
        ..FeeConfig::default()
    };
    let mut market = FeeMarket::new(config, 50).unwrap();
    // Large decrease.
    market.update_base_fee(0);
    // Would be 50 - 6 = 44, but floor is 50.
    assert_eq!(market.current_base_fee(), 50);
}

#[test]
fn test_calculate_fee() {
    let market = default_market();
    let fee = market.calculate_fee(100_000, 5);
    // base_fee = 100 * 100_000 = 10_000_000
    // priority_fee = 5 * 100_000 = 500_000
    // total = 10_500_000
    assert_eq!(
        fee,
        TransactionFee {
            base_fee: 10_000_000,
            priority_fee: 500_000,
            total: 10_500_000,
        }
    );
}

#[test]
fn test_fee_calculation_zero_priority() {
    let market = default_market();
    let fee = market.calculate_fee(50_000, 0);
    assert_eq!(fee.base_fee, 5_000_000);
    assert_eq!(fee.priority_fee, 0);
    assert_eq!(fee.total, 5_000_000);
}

#[test]
fn test_invalid_split_ratios() {
    let config = FeeConfig {
        split: SplitConfig {
            launch: SplitRatios {
                burn_bps: 5000,
                validator_bps: 3000,
                treasury_bps: 2000,
                developer_bps: 2000, // Sum = 12000
            },
            ..SplitConfig::default()
        },
        ..FeeConfig::default()
    };
    let result = FeeMarket::new(config, 100);
    assert!(matches!(result, Err(FeeError::InvalidSplitRatios(12000))));
}

#[test]
fn test_zero_elasticity() {
    let config = FeeConfig {
        elasticity_multiplier: 0,
        ..FeeConfig::default()
    };
    let result = FeeMarket::new(config, 100);
    assert!(matches!(result, Err(FeeError::ZeroElasticity)));
}

#[test]
fn test_successive_increases() {
    let mut market = default_market();
    let target = market.config().target_gas_per_block;
    // Simulate high utilization over several blocks.
    for _ in 0..10 {
        market.update_base_fee(target * 2);
    }
    // Base fee should have compounded upward.
    assert!(market.current_base_fee() > 200);
}

#[test]
fn test_successive_decreases_hit_floor() {
    let config = FeeConfig {
        base_fee_floor: 10,
        ..FeeConfig::default()
    };
    let mut market = FeeMarket::new(config, 100).unwrap();
    // Empty blocks.
    for _ in 0..100 {
        market.update_base_fee(0);
    }
    assert_eq!(market.current_base_fee(), 10);
}

#[test]
fn base_fee_moves_by_one_eighth_at_most() {
    let mut market = FeeMarket::new(FeeConfig::default(), 1_000).unwrap();
    // Twice the target: 1000 * 15M / (15M * 8) = 125
    market.update_base_fee(30_000_000);
    assert_eq!(market.current_base_fee(), 1_125);
    // No gas at all: 1125 * 15M / (15M * 8) = 140
    market.update_base_fee(0);
    assert_eq!(market.current_base_fee(), 985);
    let fee = market.calculate_fee(u64::MAX, 2);
    assert_eq!(fee.base_fee, u64::MAX);
    assert_eq!(fee.priority_fee, u64::MAX);
    assert_eq!(fee.total, u64::MAX);
}

#[test]
fn invalid_maturity_split_is_reported() {
    let config = FeeConfig {
        split: SplitConfig {
            maturity: SplitRatios { burn_bps: 1, validator_bps: 2, treasury_bps: 3, developer_bps: 4 },
            ..SplitConfig::default()
        },
        ..FeeConfig::default()
    };
    assert_eq!(FeeMarket::new(config, 100), Err(FeeError::InvalidSplitRatios(10)));
}
