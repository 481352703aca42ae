//! The identifiers, votes, proposals and timeouts that the consensus core
//! speaks of.

use vstd::prelude::*;
use crate::crypto::{Signature, hex_encode, hex_text};
use crate::keys::{PublicKey, keys_equal};
use crate::bft::block::Block;

verus! {

/// A validator's identity: the bytes of its Ed25519 public key.
#[derive(Debug, Clone, Copy, PartialEq, Eq, Hash)]
pub struct ValidatorId(pub PublicKey);

impl ValidatorId {
    pub fn as_bytes(&self) -> (bytes: &[u8; 32])
        ensures
            *bytes == self.0,
    {
        &self.0
    }

    /// Whether two identities hold the same key bytes.
    pub fn same_as(&self, other: &ValidatorId) -> (r: bool)
        ensures
            r == (self.0@ == other.0@),
            r == (*self == *other),
    {
        let r = keys_equal(&self.0, &other.0);
        proof {
            if r {
                assert(self.0 =~= other.0);
            }
        }
        r
    }
}

/// A SHA-256 block hash.
#[derive(Debug, Clone, Copy, PartialEq, Eq, Hash, Default)]
pub struct BlockHash(pub [u8; 32]);

impl BlockHash {
    /// Whether all thirty-two bytes are zero.
    pub fn is_zero(&self) -> (r: bool)
        ensures
            r == (forall|i: int| 0 <= i < 32 ==> self.0@[i] == 0u8),
    {
        let zero = [0u8; 32];
        let r = keys_equal(&self.0, &zero);
        proof {
            if !r && (forall|i: int| 0 <= i < 32 ==> self.0@[i] == 0u8) {
                assert(self.0@ =~= zero@);
            }
        }
        r
    }

    /// Whether two hashes hold the same bytes.
    pub fn same_as(&self, other: &BlockHash) -> (r: bool)
        ensures
            r == (self.0@ == other.0@),
            r == (*self == *other),
    {
        let r = keys_equal(&self.0, &other.0);
        proof {
            if r {
                assert(self.0 =~= other.0);
            }
        }
        r
    }

    /// The hash as lower-case hex text.
    pub fn to_hex(&self) -> (text: String)
        ensures
            text@ == hex_text(self.0@),
    {
        hex_encode(self.0.as_slice())
    }
}

/// Whether two optional hashes are both absent or hold the same bytes.
pub fn same_optional_hash(a: &Option<BlockHash>, b: &Option<BlockHash>) -> (r: bool)
    ensures
        r == (*a == *b),
{
    match (a, b) {
        (Some(x), Some(y)) => x.same_as(y),
        (None, None) => true,
        _ => false,
    }
}

/// The height of a block, counted from 0.
#[derive(Debug, Clone, Copy, PartialEq, Eq, PartialOrd, Ord, Hash, Structural)]
pub struct Height(pub u64);

/// A consensus round within one height.
#[derive(Debug, Clone, Copy, PartialEq, Eq, PartialOrd, Ord, Hash, Structural)]
pub struct Round(pub u32);

#[derive(Debug, Clone, Copy, PartialEq, Eq, Structural)]
pub enum VoteType {
    Prevote,
    Precommit,
}

/// A vote cast by a validator. No `block_hash` means a nil vote.
#[derive(Debug, Clone, Copy, PartialEq, Eq)]
pub struct Vote {
    pub vote_type: VoteType,
    pub height: Height,
    pub round: Round,
    pub block_hash: Option<BlockHash>,
    pub validator: ValidatorId,
    pub signature: Signature,
}

/// A block proposal from the proposer of a round. `valid_round` carries, for
/// a block proposed again, the round in which its polka was first seen.
#[derive(Debug, Clone, Copy, PartialEq, Eq)]
pub struct Proposal {
    pub height: Height,
    pub round: Round,
    pub block_hash: BlockHash,
    pub proposer: ValidatorId,
    pub signature: Signature,
    pub valid_round: Option<Round>,
}

#[derive(Debug, Clone, Copy, PartialEq, Eq, Structural)]
pub enum TimeoutStep {
    Propose,
    Prevote,
    Precommit,
}

/// A timeout that is scheduled, and later fed back into the state machine.
#[derive(Debug, Clone, Copy, PartialEq, Eq, Structural)]
pub struct TimeoutEvent {
    pub height: Height,
    pub round: Round,
    pub step: TimeoutStep,
}

/// What the state machine consumes and emits.
#[derive(Debug, Clone)]
pub enum ConsensusMessage {
    ProposeBlock { proposal: Proposal, block: Option<Block> },
    CastVote(Vote),
    CommitBlock { height: Height, block_hash: BlockHash },
    ScheduleTimeout(TimeoutEvent),
}

/// The base timeout of each step, and what each further round adds to it.
#[derive(Debug, Clone, Copy)]
pub struct TimeoutConfig {
    pub propose_ms: u64,
    pub prevote_ms: u64,
    pub precommit_ms: u64,
    pub increment_ms: u64,
}

impl Default for TimeoutConfig {
    fn default() -> (config: Self)
        ensures
            config.propose_ms == 3000,
            config.prevote_ms == 1000,
            config.precommit_ms == 1000,
            config.increment_ms == 500,
    {
        TimeoutConfig { propose_ms: 3000, prevote_ms: 1000, precommit_ms: 1000, increment_ms: 500 }
    }
}

impl TimeoutConfig {
    /// The base timeout of a step.
    pub open spec fn base_for(self, step: TimeoutStep) -> u64 {
        match step {
            TimeoutStep::Propose => self.propose_ms,
            TimeoutStep::Prevote => self.prevote_ms,
            TimeoutStep::Precommit => self.precommit_ms,
        }
    }

    /// The timeout of a step in a round: it grows linearly with the round.
    pub open spec fn timeout(self, step: TimeoutStep, round: Round) -> int {
        self.base_for(step) + self.increment_ms * round.0
    }

    /// The timeout in milliseconds for `step` in `round`.
    pub fn timeout_for(&self, step: TimeoutStep, round: Round) -> (ms: u64)
        requires
            self.timeout(step, round) <= u64::MAX,
        ensures
            ms == self.timeout(step, round),
    {
        let base = match step {
            TimeoutStep::Propose => self.propose_ms,
            TimeoutStep::Prevote => self.prevote_ms,
            TimeoutStep::Precommit => self.precommit_ms,
        };
        let rounds: u64 = round.0 as u64;
        assert(self.increment_ms * rounds >= 0) by (nonlinear_arith);
        base + self.increment_ms * rounds
    }
}

} // verus!
