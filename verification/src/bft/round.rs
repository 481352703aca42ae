//! The step and the votes of one consensus round.

use vstd::prelude::*;
use crate::bft::types::{BlockHash, Height, Round, TimeoutConfig, TimeoutStep, VoteType};
use crate::bft::vote::VoteSet;

verus! {

/// The phase of a consensus round.
#[derive(Debug, Clone, Copy, PartialEq, Eq, Structural)]
pub enum RoundStep {
    /// On entry to a height, before the round is started.
    NewRound,
    /// Waiting for the proposer's block.
    Propose,
    /// Validators exchange prevotes.
    Prevote,
    /// Validators exchange precommits.
    Precommit,
    /// A block is committed; the next height follows.
    Commit,
}

/// The state of one consensus round: the proposal seen and the votes collected.
#[derive(Debug, Clone)]
pub struct RoundState {
    pub round: Round,
    pub step: RoundStep,
    pub proposal: Option<BlockHash>,
    pub prevotes: VoteSet,
    pub precommits: VoteSet,
}

impl RoundState {
    /// The two tallies hold what their invariant asks, and are those of this
    /// round.
    pub open spec fn wf(self) -> bool {
        &&& self.prevotes.wf()
        &&& self.precommits.wf()
    }

    /// Whether this is the state in which a round starts: no proposal and
    /// two empty tallies for `height`, `round` and `total_validators`.
    pub open spec fn is_fresh(self, round: Round, height: Height, total_validators: usize) -> bool {
        &&& self.round == round
        &&& self.step == RoundStep::NewRound
        &&& self.proposal.is_none()
        &&& self.prevotes.vote_type == VoteType::Prevote
        &&& self.prevotes.height == height
        &&& self.prevotes.round == round
        &&& self.prevotes.total_validators == total_validators
        &&& self.prevotes.votes().len() == 0
        &&& self.precommits.vote_type == VoteType::Precommit
        &&& self.precommits.height == height
        &&& self.precommits.round == round
        &&& self.precommits.total_validators == total_validators
        &&& self.precommits.votes().len() == 0
    }

    pub fn new(round: Round, height: Height, total_validators: usize) -> (state: Self)
        ensures
            state.is_fresh(round, height, total_validators),
            state.wf(),
    {
        RoundState {
            round,
            step: RoundStep::NewRound,
            proposal: None,
            prevotes: VoteSet::new(VoteType::Prevote, height, round, total_validators),
            precommits: VoteSet::new(VoteType::Precommit, height, round, total_validators),
        }
    }

    /// The propose timeout of this round.
    pub fn propose_timeout(&self, config: &TimeoutConfig) -> (ms: u64)
        requires
            config.timeout(TimeoutStep::Propose, self.round) <= u64::MAX,
        ensures
            ms == config.timeout(TimeoutStep::Propose, self.round),
    {
        config.timeout_for(TimeoutStep::Propose, self.round)
    }

    /// The prevote timeout of this round.
    pub fn prevote_timeout(&self, config: &TimeoutConfig) -> (ms: u64)
        requires
            config.timeout(TimeoutStep::Prevote, self.round) <= u64::MAX,
        ensures
            ms == config.timeout(TimeoutStep::Prevote, self.round),
    {
        config.timeout_for(TimeoutStep::Prevote, self.round)
    }

    /// The precommit timeout of this round.
    pub fn precommit_timeout(&self, config: &TimeoutConfig) -> (ms: u64)
        requires
            config.timeout(TimeoutStep::Precommit, self.round) <= u64::MAX,
        ensures
            ms == config.timeout(TimeoutStep::Precommit, self.round),
    {
        config.timeout_for(TimeoutStep::Precommit, self.round)
    }
}

} // verus!
