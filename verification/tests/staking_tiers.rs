use trv1::staking::tiers::LockTier;

#[test]
fn test_no_lock_tier() {
    let tier = LockTier::NoLock;
    assert_eq!(tier.multiplier_bps(), 1000);
    assert_eq!(tier.bonus_apy_bps(), 0);
    assert_eq!(tier.vote_weight_bps(), 1000);
    assert_eq!(tier.lock_duration_epochs(), Some(0));
}

#[test]
fn test_three_month_tier() {
    let tier = LockTier::ThreeMonth;
    assert_eq!(tier.multiplier_bps(), 1200);
    assert_eq!(tier.bonus_apy_bps(), 100);
    assert_eq!(tier.vote_weight_bps(), 1500);
    assert_eq!(tier.lock_duration_epochs(), Some(90));
}

#[test]
fn test_six_month_tier() {
    let tier = LockTier::SixMonth;
    assert_eq!(tier.multiplier_bps(), 1500);
    assert_eq!(tier.bonus_apy_bps(), 200);
    assert_eq!(tier.vote_weight_bps(), 2000);
    assert_eq!(tier.lock_duration_epochs(), Some(180));
}

#[test]
fn test_one_year_tier() {
    let tier = LockTier::OneYear;
    assert_eq!(tier.multiplier_bps(), 2000);
    assert_eq!(tier.bonus_apy_bps(), 300);
    assert_eq!(tier.vote_weight_bps(), 3000);
    assert_eq!(tier.lock_duration_epochs(), Some(365));
}

#[test]
fn test_permanent_tier() {
    let tier = LockTier::Permanent;
    assert_eq!(tier.multiplier_bps(), 3000);
    assert_eq!(tier.bonus_apy_bps(), 500);
    assert_eq!(tier.vote_weight_bps(), 5000);
    assert_eq!(tier.lock_duration_epochs(), None);
}

#[test]
fn test_tiers_ordered_by_multiplier() {
    let tiers = [
        LockTier::NoLock,
        LockTier::ThreeMonth,
        LockTier::SixMonth,
        LockTier::OneYear,
        LockTier::Permanent,
    ];
    for i in 1..tiers.len() {
        assert!(tiers[i].multiplier_bps() > tiers[i - 1].multiplier_bps());
        assert!(tiers[i].vote_weight_bps() > tiers[i - 1].vote_weight_bps());
    }
}

#[test]
fn tier_rates_and_durations() {
    assert_eq!(LockTier::NoLock.rate_pct(), 5);
    assert_eq!(LockTier::ThreeMonth.rate_pct(), 20);
    assert_eq!(LockTier::SixMonth.rate_pct(), 30);
    assert_eq!(LockTier::OneYear.rate_pct(), 50);
    assert_eq!(LockTier::Permanent.rate_pct(), 120);
    assert_eq!(trv1::staking::tiers::EPOCHS_PER_YEAR, 365);
    assert_eq!(trv1::staking::tiers::THREE_MONTHS_EPOCHS, 90);
    assert_eq!(trv1::staking::tiers::SIX_MONTHS_EPOCHS, 180);
    assert_eq!(trv1::staking::tiers::ONE_YEAR_EPOCHS, 365);
}
