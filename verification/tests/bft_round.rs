use trv1::bft::round::{RoundState, RoundStep};
use trv1::bft::types::{Height, Round, TimeoutConfig, TimeoutStep};

#[test]
fn test_round_state_initial() {
    let rs = RoundState::new(Round(0), Height(1), 4);
    assert_eq!(rs.step, RoundStep::NewRound);
    assert!(rs.proposal.is_none());
    assert_eq!(rs.prevotes.count(), 0);
    assert_eq!(rs.precommits.count(), 0);
}

#[test]
fn test_timeouts_increase_with_round() {
    let config = TimeoutConfig::default();
    let r0 = RoundState::new(Round(0), Height(1), 4);
    let r1 = RoundState::new(Round(1), Height(1), 4);
    let r5 = RoundState::new(Round(5), Height(1), 4);

    assert!(r1.propose_timeout(&config) > r0.propose_timeout(&config));
    assert!(r5.propose_timeout(&config) > r1.propose_timeout(&config));
}

#[test]
fn test_timeout_values() {
    let config = TimeoutConfig {
        propose_ms: 3000,
        prevote_ms: 1000,
        precommit_ms: 1000,
        increment_ms: 500,
    };
    let r0 = RoundState::new(Round(0), Height(1), 4);
    assert_eq!(r0.propose_timeout(&config), 3000);
    assert_eq!(r0.prevote_timeout(&config), 1000);
    assert_eq!(r0.precommit_timeout(&config), 1000);

    let r2 = RoundState::new(Round(2), Height(1), 4);
    assert_eq!(r2.propose_timeout(&config), 4000);
    assert_eq!(r2.prevote_timeout(&config), 2000);
}

#[test]
fn timeout_grows_linearly() {
    let config = TimeoutConfig::default();
    assert_eq!(config.timeout_for(TimeoutStep::Propose, Round(0)), 3000);
    assert_eq!(config.timeout_for(TimeoutStep::Propose, Round(4)), 5000);
    assert_eq!(config.timeout_for(TimeoutStep::Prevote, Round(3)), 2500);
    assert_eq!(config.timeout_for(TimeoutStep::Precommit, Round(10)), 6000);
}
