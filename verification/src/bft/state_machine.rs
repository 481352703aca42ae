//! The consensus state machine: a pure function from the current state and
//! an input event to the next state and a list of output messages.

use vstd::prelude::*;
use crate::bft::block::{Block, BlockView, block_hash};
use crate::bft::round::{RoundState, RoundStep};
use crate::bft::types::{
    BlockHash,
    ConsensusMessage,
    Height,
    Proposal,
    Round,
    TimeoutConfig,
    TimeoutEvent,
    TimeoutStep,
    ValidatorId,
    Vote,
    VoteType,
};
use crate::bft::vote::VoteSet;
use crate::bytes::zero_bytes32;

verus! {

/// The position of the first entry with the hash `hash`, from `from` on.
pub open spec fn cache_position(entries: Seq<(BlockHash, Block)>, hash: BlockHash, from: int) -> Option<
    int,
>
    decreases entries.len() - from,
{
    if from < 0 || from >= entries.len() {
        None
    } else if entries[from].0 == hash {
        Some(from)
    } else {
        cache_position(entries, hash, from + 1)
    }
}

proof fn lemma_cache_position_range(entries: Seq<(BlockHash, Block)>, hash: BlockHash, from: int)
    requires
        0 <= from,
    ensures
        cache_position(entries, hash, from) matches Some(i) ==> from <= i < entries.len()
            && entries[i].0 == hash,
    decreases entries.len() - from,
{
    if from < entries.len() && entries[from].0 != hash {
        lemma_cache_position_range(entries, hash, from + 1);
    }
}

proof fn lemma_cache_position_update(
    entries: Seq<(BlockHash, Block)>,
    at: int,
    block: Block,
    hash: BlockHash,
    from: int,
)
    requires
        0 <= from,
        0 <= at < entries.len(),
    ensures
        cache_position(entries.update(at, (entries[at].0, block)), hash, from) == cache_position(
            entries,
            hash,
            from,
        ),
    decreases entries.len() - from,
{
    if from < entries.len() {
        lemma_cache_position_update(entries, at, block, hash, from + 1);
    }
}

proof fn lemma_cache_position_push(
    entries: Seq<(BlockHash, Block)>,
    added: (BlockHash, Block),
    hash: BlockHash,
    from: int,
)
    requires
        0 <= from <= entries.len(),
    ensures
        cache_position(entries.push(added), hash, from) == (match cache_position(
            entries,
            hash,
            from,
        ) {
            Some(i) => Some(i),
            None => if added.0 == hash {
                Some(entries.len() as int)
            } else {
                None
            },
        }),
    decreases entries.len() - from,
{
    if from < entries.len() {
        lemma_cache_position_push(entries, added, hash, from + 1);
    } else {
        assert(cache_position(entries.push(added), hash, from + 1) is None);
    }
}

/// The blocks that came with proposals, found again by their hash.
#[derive(Debug)]
pub struct BlockCache {
    entries: Vec<(BlockHash, Block)>,
}

impl BlockCache {
    /// The cached blocks with their hashes, in the order in which they came.
    pub closed spec fn entries(self) -> Seq<(BlockHash, Block)> {
        self.entries@
    }

    /// The block cached under `hash`, if there is one.
    pub open spec fn cached(self, hash: BlockHash) -> Option<BlockView> {
        match cache_position(self.entries(), hash, 0) {
            Some(i) => Some(self.entries()[i].1@),
            None => None,
        }
    }

    pub fn new() -> (cache: Self)
        ensures
            cache.entries().len() == 0,
            forall|hash: BlockHash| cache.cached(hash) is None,
    {
        BlockCache { entries: Vec::new() }
    }

    fn position(&self, hash: &BlockHash) -> (r: Option<usize>)
        ensures
            match r {
                Some(i) => cache_position(self.entries(), *hash, 0) == Some(i as int) && i
                    < self.entries().len(),
                None => cache_position(self.entries(), *hash, 0) is None,
            },
    {
        let mut i: usize = 0;
        while i < self.entries.len()
            invariant
                i <= self.entries@.len(),
                cache_position(self.entries@, *hash, 0) == cache_position(
                    self.entries@,
                    *hash,
                    i as int,
                ),
            decreases self.entries@.len() - i,
        {
            if self.entries[i].0.same_as(hash) {
                return Some(i);
            }
            i += 1;
        }
        None
    }

    /// Caches `block` under `hash`, in place of a block cached under it before.
    pub fn insert(&mut self, hash: BlockHash, block: Block)
        ensures
            final(self).cached(hash) == Some(block@),
            forall|other: BlockHash|
                other != hash ==> final(self).cached(other) == old(self).cached(other),
    {
        let ghost before = self.entries@;
        match self.position(&hash) {
            Some(i) => {
                self.entries.remove(i);
                self.entries.insert(i, (hash, block));
                proof {
                    lemma_cache_position_range(before, hash, 0);
                    assert(self.entries@ =~= before.update(i as int, (before[i as int].0, block)));
                    assert forall|other: BlockHash|
                        cache_position(self.entries@, other, 0) == cache_position(
                            before,
                            other,
                            0,
                        ) by {
                        lemma_cache_position_update(before, i as int, block, other, 0);
                    }
                    assert forall|other: BlockHash| other != hash implies self.cached(other)
                        == old(self).cached(other) by {
                        lemma_cache_position_range(before, other, 0);
                    }
                }
            },
            None => {
                self.entries.push((hash, block));
                proof {
                    assert forall|other: BlockHash|
                        cache_position(self.entries@, other, 0) == (match cache_position(
                            before,
                            other,
                            0,
                        ) {
                            Some(i) => Some(i),
                            None => if hash == other {
                                Some(before.len() as int)
                            } else {
                                None
                            },
                        }) by {
                        lemma_cache_position_push(before, (hash, block), other, 0);
                    }
                    assert forall|other: BlockHash| other != hash implies self.cached(other)
                        == old(self).cached(other) by {
                        lemma_cache_position_range(before, other, 0);
                    }
                }
            },
        }
    }

    /// The block cached under `hash`.
    pub fn get(&self, hash: &BlockHash) -> (r: Option<&Block>)
        ensures
            match r {
                Some(block) => self.cached(*hash) == Some(block@),
                None => self.cached(*hash) is None,
            },
    {
        match self.position(hash) {
            Some(i) => Some(&self.entries[i].1),
            None => None,
        }
    }

    /// Whether no block is cached.
    pub fn is_empty(&self) -> (r: bool)
        ensures
            r == (self.entries().len() == 0),
    {
        self.entries.len() == 0
    }

    /// How many blocks are cached.
    pub fn len(&self) -> (n: usize)
        ensures
            n == self.entries().len(),
    {
        self.entries.len()
    }

    /// Forgets every cached block.
    pub fn clear(&mut self)
        ensures
            final(self).entries().len() == 0,
            forall|hash: BlockHash| final(self).cached(hash) is None,
    {
        self.entries.clear();
    }
}

/// The position of the proposer for a height and round among `n` validators:
/// `(height + round) mod n`, and 0 where there is no validator.
pub open spec fn proposer_position(n: nat, height: Height, round: Round) -> nat {
    if n == 0 {
        0
    } else {
        ((height.0 + round.0) % (n as int)) as nat
    }
}

/// What to prevote on a proposal, by the locking rules. A node that is not
/// locked prevotes the proposed hash. A locked node prevotes it only if it is
/// the locked hash, or if the proposal carries a valid round that is not
/// before the round of the lock; otherwise it prevotes nil.
pub open spec fn prevote_choice(
    locked_value: Option<BlockHash>,
    locked_round: Option<Round>,
    proposal: Proposal,
) -> Option<BlockHash> {
    match locked_value {
        Some(locked) => if proposal.block_hash == locked {
            Some(proposal.block_hash)
        } else {
            match (proposal.valid_round, locked_round) {
                (Some(valid), Some(lock)) => if valid.0 >= lock.0 {
                    Some(proposal.block_hash)
                } else {
                    None
                },
                _ => None,
            }
        },
        None => Some(proposal.block_hash),
    }
}

/// What one step of the state machine emits, apart from the height, the
/// round and the placeholder identity that every message carries.
pub enum Emission {
    Nothing,
    Vote { vote_type: VoteType, block_hash: Option<BlockHash> },
    Timeout { step: TimeoutStep },
    /// A vote, and behind it the timeout of the step that the vote opens.
    VoteAndTimeout { vote_type: VoteType, block_hash: Option<BlockHash>, step: TimeoutStep },
    Commit { block_hash: BlockHash },
}

/// The step, the lock and the valid value after an event, and what is emitted.
pub struct Transition {
    pub step: RoundStep,
    pub locked_value: Option<BlockHash>,
    pub locked_round: Option<Round>,
    pub valid_value: Option<BlockHash>,
    pub valid_round: Option<Round>,
    pub emission: Emission,
}

/// Whether the messages `out` are what `emission` asks for at a height and
/// round: nothing, one message, or a vote with a timeout behind it. An
/// emitted vote carries `validator` and `signature`, which are placeholders
/// for the runtime to replace.
pub open spec fn emits(
    out: Seq<ConsensusMessage>,
    emission: Emission,
    height: Height,
    round: Round,
    validator: Seq<u8>,
    signature: Seq<u8>,
) -> bool {
    match emission {
        Emission::Nothing => out.len() == 0,
        Emission::Vote { vote_type, block_hash } => {
            &&& out.len() == 1
            &&& out[0] matches ConsensusMessage::CastVote(vote)
            &&& vote.vote_type == vote_type
            &&& vote.height == height
            &&& vote.round == round
            &&& vote.block_hash == block_hash
            &&& vote.validator.0@ == validator
            &&& vote.signature@ == signature
        },
        Emission::Timeout { step } => {
            &&& out.len() == 1
            &&& out[0] == ConsensusMessage::ScheduleTimeout(TimeoutEvent { height, round, step })
        },
        Emission::VoteAndTimeout { vote_type, block_hash, step } => {
            &&& out.len() == 2
            &&& out[0] matches ConsensusMessage::CastVote(vote)
            &&& vote.vote_type == vote_type
            &&& vote.height == height
            &&& vote.round == round
            &&& vote.block_hash == block_hash
            &&& vote.validator.0@ == validator
            &&& vote.signature@ == signature
            &&& out[1] == ConsensusMessage::ScheduleTimeout(TimeoutEvent { height, round, step })
        },
        Emission::Commit { block_hash } => {
            &&& out.len() == 1
            &&& out[0] == (ConsensusMessage::CommitBlock { height, block_hash })
        },
    }
}

/// Sixty-four zero bytes: the signature of a vote that no message provides one for.
pub open spec fn zero_signature() -> Seq<u8> {
    Seq::new(64, |i: int| 0u8)
}

/// The consensus state of one node at one height.
#[derive(Debug)]
pub struct BftStateMachine {
    pub height: Height,
    pub round: Round,
    pub step: RoundStep,
    /// This node's position in the validator list, if it is a validator.
    pub validator_index: Option<usize>,
    /// The ordered validators of the current height.
    pub validators: Vec<ValidatorId>,
    /// The proposal seen and the votes collected in the current round.
    pub round_state: RoundState,
    /// The hash that this node has precommitted, and the round of that.
    pub locked_value: Option<BlockHash>,
    pub locked_round: Option<Round>,
    /// The hash that a polka was last seen for, and the round of that.
    pub valid_value: Option<BlockHash>,
    pub valid_round: Option<Round>,
    pub timeout_config: TimeoutConfig,
    /// The blocks received with proposals.
    pub proposed_blocks: BlockCache,
}

impl BftStateMachine {
    /// The lock is set only together with its round.
    pub open spec fn wf(self) -> bool {
        &&& self.locked_value is Some <==> self.locked_round is Some
        &&& self.round_state.wf()
    }

    /// What no event changes: the height, the validators, this node's
    /// position among them and the timeouts.
    pub open spec fn same_setup(self, other: Self) -> bool {
        &&& self.height == other.height
        &&& self.validator_index == other.validator_index
        &&& self.validators == other.validators
        &&& self.timeout_config == other.timeout_config
    }

    /// The identity that an emitted vote carries where no message provides
    /// one: the first validator, or thirty-two zero bytes without validators.
    pub open spec fn placeholder_validator(self) -> Seq<u8> {
        if self.validators@.len() > 0 {
            self.validators@[0].0@
        } else {
            zero_bytes32()
        }
    }

    /// The position of the proposer for `height` and `round`.
    pub open spec fn proposer_of(self, height: Height, round: Round) -> nat {
        proposer_position(self.validators@.len(), height, round)
    }

    /// Whether a proposal is admitted: it is for the current height and
    /// round, the node waits for a proposal, the proposal comes from the
    /// proposer of this round, and a block that comes with it has its hash.
    pub open spec fn admits_proposal(self, proposal: Proposal, block: Option<&Block>) -> bool {
        &&& proposal.height == self.height
        &&& proposal.round == self.round
        &&& self.step == RoundStep::Propose
        &&& self.validators@.len() > 0
        &&& proposal.proposer == self.validators@[self.proposer_of(self.height, self.round) as int]
        &&& (block matches Some(b) ==> block_hash(b.header) == proposal.block_hash.0@)
    }

    /// Whether a vote or a timeout is for another height or round than the
    /// current one.
    pub open spec fn is_stale(self, height: Height, round: Round) -> bool {
        height != self.height || round != self.round
    }

    /// What follows from the prevotes `tally` after one more prevote came in.
    pub open spec fn after_prevote(self, tally: VoteSet) -> Transition {
        let unchanged = Transition {
            step: self.step,
            locked_value: self.locked_value,
            locked_round: self.locked_round,
            valid_value: self.valid_value,
            valid_round: self.valid_round,
            emission: Emission::Nothing,
        };
        match self.step {
            RoundStep::Prevote => match tally.quorum_choice() {
                Some(hash) => Transition {
                    step: RoundStep::Precommit,
                    locked_value: Some(hash),
                    locked_round: Some(self.round),
                    valid_value: Some(hash),
                    valid_round: Some(self.round),
                    emission: Emission::Vote {
                        vote_type: VoteType::Precommit,
                        block_hash: Some(hash),
                    },
                },
                None => if tally.quorum_for_nil() {
                    Transition {
                        step: RoundStep::Precommit,
                        emission: Emission::Vote {
                            vote_type: VoteType::Precommit,
                            block_hash: None,
                        },
                        ..unchanged
                    }
                } else if tally.two_thirds_any() {
                    Transition {
                        emission: Emission::Timeout { step: TimeoutStep::Prevote },
                        ..unchanged
                    }
                } else {
                    unchanged
                },
            },
            RoundStep::Precommit => match tally.quorum_choice() {
                Some(hash) => Transition {
                    valid_value: Some(hash),
                    valid_round: Some(self.round),
                    ..unchanged
                },
                None => unchanged,
            },
            _ => unchanged,
        }
    }

    /// What follows from the precommits `tally` after one more precommit
    /// came in. A block is committed once: in the Commit step nothing more
    /// is emitted.
    pub open spec fn after_precommit(self, tally: VoteSet) -> Transition {
        let unchanged = Transition {
            step: self.step,
            locked_value: self.locked_value,
            locked_round: self.locked_round,
            valid_value: self.valid_value,
            valid_round: self.valid_round,
            emission: Emission::Nothing,
        };
        match tally.quorum_choice() {
            Some(hash) => if self.step != RoundStep::Commit {
                Transition {
                    step: RoundStep::Commit,
                    emission: Emission::Commit { block_hash: hash },
                    ..unchanged
                }
            } else {
                unchanged
            },
            None => if tally.two_thirds_any() && self.step == RoundStep::Precommit {
                Transition {
                    emission: Emission::Timeout { step: TimeoutStep::Precommit },
                    ..unchanged
                }
            } else {
                unchanged
            },
        }
    }

    /// A state machine for `height` and `validators`, in round 0, before the
    /// round is started.
    pub fn new(
        height: Height,
        validators: Vec<ValidatorId>,
        validator_index: Option<usize>,
        timeout_config: TimeoutConfig,
    ) -> (machine: Self)
        ensures
            machine.height == height,
            machine.round == Round(0),
            machine.step == RoundStep::NewRound,
            machine.validator_index == validator_index,
            machine.validators == validators,
            machine.round_state.is_fresh(Round(0), height, validators@.len() as usize),
            machine.locked_value is None,
            machine.locked_round is None,
            machine.valid_value is None,
            machine.valid_round is None,
            machine.timeout_config == timeout_config,
            forall|hash: BlockHash| machine.proposed_blocks.cached(hash) is None,
            machine.wf(),
    {
        let total = validators.len();
        let round = Round(0);
        BftStateMachine {
            height,
            round,
            step: RoundStep::NewRound,
            validator_index,
            validators,
            round_state: RoundState::new(round, height, total),
            locked_value: None,
            locked_round: None,
            valid_value: None,
            valid_round: None,
            timeout_config,
            proposed_blocks: BlockCache::new(),
        }
    }

    /// Starts round `round`: the node waits for a proposal, with empty
    /// tallies, and the propose timeout is to be scheduled.
    pub fn start_round(&mut self, round: Round) -> (out: Vec<ConsensusMessage>)
        ensures
            final(self).same_setup(*old(self)),
            final(self).round == round,
            final(self).step == RoundStep::Propose,
            final(self).round_state.is_fresh(
                round,
                old(self).height,
                old(self).validators@.len() as usize,
            ),
            final(self).round_state.wf(),
            final(self).locked_value == old(self).locked_value,
            final(self).locked_round == old(self).locked_round,
            final(self).valid_value == old(self).valid_value,
            final(self).valid_round == old(self).valid_round,
            final(self).proposed_blocks == old(self).proposed_blocks,
            emits(
                out@,
                Emission::Timeout { step: TimeoutStep::Propose },
                old(self).height,
                round,
                old(self).placeholder_validator(),
                zero_signature(),
            ),
    {
        self.round = round;
        self.step = RoundStep::Propose;
        let total = self.validators.len();
        self.round_state = RoundState::new(round, self.height, total);
        let mut out: Vec<ConsensusMessage> = Vec::new();
        out.push(
            ConsensusMessage::ScheduleTimeout(
                TimeoutEvent { height: self.height, round: self.round, step: TimeoutStep::Propose },
            ),
        );
        out
    }

    /// The position of the proposer for a height and round: they rotate by
    /// position, `(height + round) mod n`.
    pub fn proposer_index(&self, height: Height, round: Round) -> (index: usize)
        ensures
            index == self.proposer_of(height, round),
            self.validators@.len() > 0 ==> index < self.validators@.len(),
    {
        let n = self.validators.len();
        if n == 0 {
            return 0;
        }
        let sum: u128 = height.0 as u128 + round.0 as u128;
        let index: u128 = sum % (n as u128);
        index as usize
    }

    /// Whether this node is the proposer of the current height and round.
    pub fn is_proposer(&self) -> (r: bool)
        ensures
            r == (self.validator_index matches Some(index) && index == self.proposer_of(
                self.height,
                self.round,
            )),
    {
        match self.validator_index {
            Some(index) => self.proposer_index(self.height, self.round) == index,
            None => false,
        }
    }

    /// Handles a proposal, with the proposed block where it came along. A
    /// proposal that is not admitted is dropped. For an admitted one the
    /// block is cached, the proposal is recorded, the step becomes Prevote,
    /// and one prevote is emitted: for the hash or nil, by the locking rules.
    pub fn on_proposal(&mut self, proposal: &Proposal, block: Option<&Block>) -> (out: Vec<
        ConsensusMessage,
    >)
        ensures
            final(self).same_setup(*old(self)),
            final(self).round == old(self).round,
            final(self).locked_value == old(self).locked_value,
            final(self).locked_round == old(self).locked_round,
            final(self).valid_value == old(self).valid_value,
            final(self).valid_round == old(self).valid_round,
            final(self).round_state.round == old(self).round_state.round,
            final(self).round_state.step == old(self).round_state.step,
            final(self).round_state.prevotes == old(self).round_state.prevotes,
            final(self).round_state.precommits == old(self).round_state.precommits,
            !old(self).admits_proposal(*proposal, block) ==> {
                &&& out@.len() == 0
                &&& final(self).step == old(self).step
                &&& final(self).round_state.proposal == old(self).round_state.proposal
                &&& final(self).proposed_blocks == old(self).proposed_blocks
            },
            old(self).admits_proposal(*proposal, block) ==> {
                &&& final(self).step == RoundStep::Prevote
                &&& final(self).round_state.proposal == Some(proposal.block_hash)
                &&& emits(
                    out@,
                    Emission::Vote {
                        vote_type: VoteType::Prevote,
                        block_hash: prevote_choice(
                            old(self).locked_value,
                            old(self).locked_round,
                            *proposal,
                        ),
                    },
                    old(self).height,
                    old(self).round,
                    proposal.proposer.0@,
                    proposal.signature@,
                )
                &&& match block {
                    Some(b) => {
                        &&& final(self).proposed_blocks.cached(proposal.block_hash) == Some(b@)
                        &&& forall|other: BlockHash|
                            other != proposal.block_hash ==> final(self).proposed_blocks.cached(
                                other,
                            ) == old(self).proposed_blocks.cached(other)
                    },
                    None => final(self).proposed_blocks == old(self).proposed_blocks,
                }
            },
    {
        let mut out: Vec<ConsensusMessage> = Vec::new();
        if proposal.height.0 != self.height.0 || proposal.round.0 != self.round.0 {
            return out;
        }
        if self.step != RoundStep::Propose {
            return out;
        }
        let expected = self.proposer_index(self.height, self.round);
        if expected >= self.validators.len() {
            return out;
        }
        if !proposal.proposer.same_as(&self.validators[expected]) {
            return out;
        }
        match block {
            Some(b) => {
                if !b.hash().same_as(&proposal.block_hash) {
                    return out;
                }
                self.proposed_blocks.insert(proposal.block_hash, b.clone());
            },
            None => {},
        }
        self.round_state.proposal = Some(proposal.block_hash);
        let prevote_hash = match self.locked_value {
            Some(locked) => {
                if proposal.block_hash.same_as(&locked) {
                    Some(proposal.block_hash)
                } else {
                    match (proposal.valid_round, self.locked_round) {
                        (Some(valid), Some(lock)) => {
                            if valid.0 >= lock.0 {
                                Some(proposal.block_hash)
                            } else {
                                None
                            }
                        },
                        _ => None,
                    }
                }
            },
            None => Some(proposal.block_hash),
        };
        self.step = RoundStep::Prevote;
        out.push(
            ConsensusMessage::CastVote(
                Vote {
                    vote_type: VoteType::Prevote,
                    height: self.height,
                    round: self.round,
                    block_hash: prevote_hash,
                    validator: proposal.proposer,
                    signature: proposal.signature,
                },
            ),
        );
        out
    }

    /// Handles a prevote. A prevote for another height or round, or a vote
    /// of another type, is dropped. Otherwise the tally admits it or not,
    /// and the step, the lock, the valid value and the emitted message are
    /// what `after_prevote` gives for the tally.
    pub fn on_prevote(&mut self, vote: &Vote) -> (out: Vec<ConsensusMessage>)
        ensures
            final(self).same_setup(*old(self)),
            final(self).round == old(self).round,
            final(self).proposed_blocks == old(self).proposed_blocks,
            final(self).round_state.round == old(self).round_state.round,
            final(self).round_state.step == old(self).round_state.step,
            final(self).round_state.proposal == old(self).round_state.proposal,
            final(self).round_state.precommits == old(self).round_state.precommits,
            old(self).round_state.wf() ==> final(self).round_state.wf(),
            old(self).is_stale(vote.height, vote.round) || vote.vote_type != VoteType::Prevote ==> {
                &&& out@.len() == 0
                &&& *final(self) == *old(self)
            },
            !old(self).is_stale(vote.height, vote.round) && vote.vote_type == VoteType::Prevote
                ==> {
                let tally = final(self).round_state.prevotes;
                let next = old(self).after_prevote(tally);
                &&& tally.vote_type == old(self).round_state.prevotes.vote_type
                &&& tally.height == old(self).round_state.prevotes.height
                &&& tally.round == old(self).round_state.prevotes.round
                &&& tally.total_validators == old(self).round_state.prevotes.total_validators
                &&& tally.votes() == (if old(self).round_state.prevotes.admits(*vote) {
                    old(self).round_state.prevotes.votes().push(*vote)
                } else {
                    old(self).round_state.prevotes.votes()
                })
                &&& final(self).step == next.step
                &&& final(self).locked_value == next.locked_value
                &&& final(self).locked_round == next.locked_round
                &&& final(self).valid_value == next.valid_value
                &&& final(self).valid_round == next.valid_round
                &&& emits(
                    out@,
                    next.emission,
                    old(self).height,
                    old(self).round,
                    vote.validator.0@,
                    vote.signature@,
                )
            },
    {
        let mut out: Vec<ConsensusMessage> = Vec::new();
        if vote.height.0 != self.height.0 || vote.round.0 != self.round.0 {
            return out;
        }
        if vote.vote_type != VoteType::Prevote {
            return out;
        }
        self.round_state.prevotes.add_vote(*vote);
        match self.step {
            RoundStep::Prevote => {
                match self.round_state.prevotes.quorum_block() {
                    Some(hash) => {
                        self.valid_value = Some(hash);
                        self.valid_round = Some(self.round);
                        self.locked_value = Some(hash);
                        self.locked_round = Some(self.round);
                        self.step = RoundStep::Precommit;
                        out.push(
                            ConsensusMessage::CastVote(
                                Vote {
                                    vote_type: VoteType::Precommit,
                                    height: self.height,
                                    round: self.round,
                                    block_hash: Some(hash),
                                    validator: vote.validator,
                                    signature: vote.signature,
                                },
                            ),
                        );
                    },
                    None => {
                        if self.round_state.prevotes.has_quorum_for_nil() {
                            self.step = RoundStep::Precommit;
                            out.push(
                                ConsensusMessage::CastVote(
                                    Vote {
                                        vote_type: VoteType::Precommit,
                                        height: self.height,
                                        round: self.round,
                                        block_hash: None,
                                        validator: vote.validator,
                                        signature: vote.signature,
                                    },
                                ),
                            );
                        } else if self.round_state.prevotes.has_two_thirds_any() {
                            out.push(
                                ConsensusMessage::ScheduleTimeout(
                                    TimeoutEvent {
                                        height: self.height,
                                        round: self.round,
                                        step: TimeoutStep::Prevote,
                                    },
                                ),
                            );
                        }
                    },
                }
            },
            RoundStep::Precommit => {
                match self.round_state.prevotes.quorum_block() {
                    Some(hash) => {
                        self.valid_value = Some(hash);
                        self.valid_round = Some(self.round);
                    },
                    None => {},
                }
            },
            _ => {},
        }
        out
    }

    /// Handles a precommit. A precommit for another height or round, or a
    /// vote of another type, is dropped. Otherwise the tally admits it or
    /// not, and the step and the emitted message are what `after_precommit`
    /// gives for the tally: a block is committed when a hash has a quorum,
    /// and only once.
    pub fn on_precommit(&mut self, vote: &Vote) -> (out: Vec<ConsensusMessage>)
        ensures
            final(self).same_setup(*old(self)),
            final(self).round == old(self).round,
            final(self).proposed_blocks == old(self).proposed_blocks,
            final(self).locked_value == old(self).locked_value,
            final(self).locked_round == old(self).locked_round,
            final(self).valid_value == old(self).valid_value,
            final(self).valid_round == old(self).valid_round,
            final(self).round_state.round == old(self).round_state.round,
            final(self).round_state.step == old(self).round_state.step,
            final(self).round_state.proposal == old(self).round_state.proposal,
            final(self).round_state.prevotes == old(self).round_state.prevotes,
            old(self).round_state.wf() ==> final(self).round_state.wf(),
            old(self).is_stale(vote.height, vote.round) || vote.vote_type != VoteType::Precommit
                ==> {
                &&& out@.len() == 0
                &&& *final(self) == *old(self)
            },
            !old(self).is_stale(vote.height, vote.round) && vote.vote_type == VoteType::Precommit
                ==> {
                let tally = final(self).round_state.precommits;
                let next = old(self).after_precommit(tally);
                &&& tally.vote_type == old(self).round_state.precommits.vote_type
                &&& tally.height == old(self).round_state.precommits.height
                &&& tally.round == old(self).round_state.precommits.round
                &&& tally.total_validators == old(self).round_state.precommits.total_validators
                &&& tally.votes() == (if old(self).round_state.precommits.admits(*vote) {
                    old(self).round_state.precommits.votes().push(*vote)
                } else {
                    old(self).round_state.precommits.votes()
                })
                &&& final(self).step == next.step
                &&& emits(
                    out@,
                    next.emission,
                    old(self).height,
                    old(self).round,
                    vote.validator.0@,
                    vote.signature@,
                )
            },
            old(self).step == RoundStep::Commit ==> out@.len() == 0 && final(self).step
                == RoundStep::Commit,
            forall|i: int|
                0 <= i < out@.len() ==> (#[trigger] out@[i] matches ConsensusMessage::CommitBlock {
                    height,
                    block_hash,
                } ==> height == old(self).height && final(self).round_state.precommits.quorum_for(
                    block_hash,
                ) && final(self).step == RoundStep::Commit),
    {
        let mut out: Vec<ConsensusMessage> = Vec::new();
        if vote.height.0 != self.height.0 || vote.round.0 != self.round.0 {
            return out;
        }
        if vote.vote_type != VoteType::Precommit {
            return out;
        }
        self.round_state.precommits.add_vote(*vote);
        match self.round_state.precommits.quorum_block() {
            Some(hash) => {
                if self.step != RoundStep::Commit {
                    self.step = RoundStep::Commit;
                    out.push(
                        ConsensusMessage::CommitBlock { height: self.height, block_hash: hash },
                    );
                }
            },
            None => {
                if self.round_state.precommits.has_two_thirds_any() && self.step
                    == RoundStep::Precommit {
                    out.push(
                        ConsensusMessage::ScheduleTimeout(
                            TimeoutEvent {
                                height: self.height,
                                round: self.round,
                                step: TimeoutStep::Precommit,
                            },
                        ),
                    );
                }
            },
        }
        out
    }

    /// Whether a timeout event takes effect: it is for the current height
    /// and round, and for the step in which the node is.
    pub open spec fn timeout_applies(self, event: TimeoutEvent) -> bool {
        &&& !self.is_stale(event.height, event.round)
        &&& match event.step {
            TimeoutStep::Propose => self.step == RoundStep::Propose,
            TimeoutStep::Prevote => self.step == RoundStep::Prevote,
            TimeoutStep::Precommit => self.step == RoundStep::Precommit,
        }
    }

    /// Handles a timeout. One for another height or round, or for a step
    /// that the node has left, is dropped. A propose timeout moves to
    /// Prevote, emits a nil prevote and schedules the prevote timeout; a
    /// prevote timeout moves to Precommit and emits a nil precommit; a
    /// precommit timeout starts the next round.
    pub fn on_timeout(&mut self, event: TimeoutEvent) -> (out: Vec<ConsensusMessage>)
        requires
            old(self).timeout_applies(event) && event.step == TimeoutStep::Precommit ==> old(
                self,
            ).round.0 < u32::MAX,
        ensures
            final(self).same_setup(*old(self)),
            final(self).proposed_blocks == old(self).proposed_blocks,
            final(self).locked_value == old(self).locked_value,
            final(self).locked_round == old(self).locked_round,
            final(self).valid_value == old(self).valid_value,
            final(self).valid_round == old(self).valid_round,
            old(self).round_state.wf() ==> final(self).round_state.wf(),
            !old(self).timeout_applies(event) ==> out@.len() == 0 && *final(self) == *old(self),
            old(self).timeout_applies(event) ==> match event.step {
                TimeoutStep::Propose => {
                    &&& final(self).step == RoundStep::Prevote
                    &&& final(self).round == old(self).round
                    &&& final(self).round_state == old(self).round_state
                    &&& emits(
                        out@,
                        Emission::VoteAndTimeout {
                            vote_type: VoteType::Prevote,
                            block_hash: None,
                            step: TimeoutStep::Prevote,
                        },
                        old(self).height,
                        old(self).round,
                        old(self).placeholder_validator(),
                        zero_signature(),
                    )
                },
                TimeoutStep::Prevote => {
                    &&& final(self).step == RoundStep::Precommit
                    &&& final(self).round == old(self).round
                    &&& final(self).round_state == old(self).round_state
                    &&& emits(
                        out@,
                        Emission::Vote { vote_type: VoteType::Precommit, block_hash: None },
                        old(self).height,
                        old(self).round,
                        old(self).placeholder_validator(),
                        zero_signature(),
                    )
                },
                TimeoutStep::Precommit => {
                    &&& final(self).step == RoundStep::Propose
                    &&& final(self).round == Round((old(self).round.0 + 1) as u32)
                    &&& final(self).round_state.is_fresh(
                        final(self).round,
                        old(self).height,
                        old(self).validators@.len() as usize,
                    )
                    &&& emits(
                        out@,
                        Emission::Timeout { step: TimeoutStep::Propose },
                        old(self).height,
                        final(self).round,
                        old(self).placeholder_validator(),
                        zero_signature(),
                    )
                },
            },
    {
        let mut out: Vec<ConsensusMessage> = Vec::new();
        if event.height.0 != self.height.0 || event.round.0 != self.round.0 {
            return out;
        }
        match event.step {
            TimeoutStep::Propose => {
                if self.step == RoundStep::Propose {
                    self.step = RoundStep::Prevote;
                    let validator = if self.validators.len() > 0 {
                        self.validators[0]
                    } else {
                        ValidatorId([0u8; 32])
                    };
                    let signature = [0u8; 64];
                    assert(signature@ =~= zero_signature());
                    assert(validator.0@ =~= self.placeholder_validator());
                    out.push(
                        ConsensusMessage::CastVote(
                            Vote {
                                vote_type: VoteType::Prevote,
                                height: self.height,
                                round: self.round,
                                block_hash: None,
                                validator,
                                signature,
                            },
                        ),
                    );
                    out.push(
                        ConsensusMessage::ScheduleTimeout(
                            TimeoutEvent {
                                height: self.height,
                                round: self.round,
                                step: TimeoutStep::Prevote,
                            },
                        ),
                    );
                }
            },
            TimeoutStep::Prevote => {
                if self.step == RoundStep::Prevote {
                    self.step = RoundStep::Precommit;
                    let validator = if self.validators.len() > 0 {
                        self.validators[0]
                    } else {
                        ValidatorId([0u8; 32])
                    };
                    let signature = [0u8; 64];
                    assert(signature@ =~= zero_signature());
                    assert(validator.0@ =~= self.placeholder_validator());
                    out.push(
                        ConsensusMessage::CastVote(
                            Vote {
                                vote_type: VoteType::Precommit,
                                height: self.height,
                                round: self.round,
                                block_hash: None,
                                validator,
                                signature,
                            },
                        ),
                    );
                }
            },
            TimeoutStep::Precommit => {
                if self.step == RoundStep::Precommit {
                    let next_round = Round(self.round.0 + 1);
                    out = self.start_round(next_round);
                }
            },
        }
        out
    }

    /// The block that came with a proposal for `hash`, if one was cached.
    pub fn get_committed_block(&self, hash: &BlockHash) -> (r: Option<&Block>)
        ensures
            match r {
                Some(block) => self.proposed_blocks.cached(*hash) == Some(block@),
                None => self.proposed_blocks.cached(*hash) is None,
            },
    {
        self.proposed_blocks.get(hash)
    }

    /// Moves to `new_height` after a commit: round 0 is started, the lock
    /// and the valid value are cleared, and the cached blocks are forgotten.
    pub fn advance_height(&mut self, new_height: Height) -> (out: Vec<ConsensusMessage>)
        ensures
            final(self).height == new_height,
            final(self).validator_index == old(self).validator_index,
            final(self).validators == old(self).validators,
            final(self).timeout_config == old(self).timeout_config,
            final(self).round == Round(0),
            final(self).step == RoundStep::Propose,
            final(self).round_state.is_fresh(
                Round(0),
                new_height,
                old(self).validators@.len() as usize,
            ),
            final(self).locked_value is None,
            final(self).locked_round is None,
            final(self).valid_value is None,
            final(self).valid_round is None,
            final(self).proposed_blocks.entries().len() == 0,
            forall|hash: BlockHash| final(self).proposed_blocks.cached(hash) is None,
            final(self).wf(),
            emits(
                out@,
                Emission::Timeout { step: TimeoutStep::Propose },
                new_height,
                Round(0),
                old(self).placeholder_validator(),
                zero_signature(),
            ),
    {
        self.height = new_height;
        self.locked_value = None;
        self.locked_round = None;
        self.valid_value = None;
        self.valid_round = None;
        self.proposed_blocks.clear();
        self.start_round(Round(0))
    }
}

/// A node that is locked on one hash prevotes nil on a proposal for another
/// hash that carries no valid round.
pub proof fn law_lock_holds_without_valid_round(
    locked: BlockHash,
    locked_round: Round,
    proposal: Proposal,
)
    requires
        proposal.block_hash != locked,
        proposal.valid_round is None,
    ensures
        prevote_choice(Some(locked), Some(locked_round), proposal) is None,
{
}

} // verus!
