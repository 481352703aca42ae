//! The node as a state machine of its own: each event (a consensus message
//! from the network, a timeout that fired) is handed to the consensus core,
//! and what the core emits is settled: votes are signed, timeouts become
//! timers, and a commit is applied to the accounts before the core moves on
//! to the next height. What is left to the caller is to send the
//! broadcasts and to run the timers.

use vstd::prelude::*;
use crate::bft::block::Block;
use crate::bft::round::RoundStep;
use crate::bft::state_machine::{BftStateMachine, Emission, prevote_choice};
use crate::bft::vote::{count_for, is_quorum_of};
use crate::bft::types::{
    BlockHash,
    ConsensusMessage,
    Height,
    Round,
    TimeoutConfig,
    TimeoutEvent,
    TimeoutStep,
    Vote,
    VoteType,
};
use crate::net::codec::{MessageView, message_view};
use crate::bft::block::block_hash;
use crate::crypto::ed25519_public_key;
use crate::node::runtime::{
    CommitSummary,
    is_own_proposal,
    NodeState,
    Timer,
    apply_commit,
    broadcast_for,
    broadcasts_upto,
    capped_timeout,
    own_vote_view,
    ends_epoch,
    message_views,
    process_bft_output,
    propose_block,
    timers_upto,
};
use crate::state::state_db::{accounts_after_all, successes, transfers_of};
use crate::bft::block::transaction_views;

verus! {

/// A commit that was applied.
#[derive(Debug)]
pub struct Committed {
    pub height: Height,
    pub block_hash: BlockHash,
    pub summary: CommitSummary,
}

/// What the caller is to do after an event.
#[derive(Debug)]
pub struct Actions {
    /// The messages to broadcast, in this order.
    pub broadcasts: Vec<ConsensusMessage>,
    /// The timeouts to schedule.
    pub timers: Vec<Timer>,
    /// The commits that were applied, in this order.
    pub commits: Vec<Committed>,
    /// Whether a commit was left out because the height or the epoch has no
    /// successor in 64 bits, or a timeout because the round has none in 32.
    pub exhausted: bool,
}

/// A node: the consensus core, what it keeps besides, and the key that it
/// signs with. A node without a key observes.
#[derive(Debug)]
pub struct Node {
    pub bft: BftStateMachine,
    pub state: NodeState,
    pub signing_key: Option<[u8; 32]>,
}

/// Whether a message is one that a node sends to its peers: a proposal or a
/// vote. Commits and timeouts stay within the node.
pub open spec fn is_sendable(msg: ConsensusMessage) -> bool {
    msg is ProposeBlock || msg is CastVote
}

/// Whether each of the messages is sendable.
pub open spec fn all_sendable(msgs: Seq<ConsensusMessage>) -> bool {
    forall|i: int| 0 <= i < msgs.len() ==> is_sendable(#[trigger] msgs[i])
}

/// No timeout is among the broadcasts for the outputs of the core.
pub proof fn lemma_no_timeout_is_broadcast(msgs: Seq<ConsensusMessage>, key: Option<Seq<u8>>, n: int)
    requires
        0 <= n <= msgs.len(),
    ensures
        broadcasts_upto(msgs, key, n).len() <= n,
        forall|i: int|
            0 <= i < broadcasts_upto(msgs, key, n).len() ==> !(#[trigger] broadcasts_upto(
                msgs,
                key,
                n,
            )[i] is ScheduleTimeout),
    decreases n,
{
    if n > 0 {
        lemma_no_timeout_is_broadcast(msgs, key, n - 1);
    }
}

/// Whether the broadcasts and the timers are what an emission of the core
/// asks of a node with the key `key`: a vote is signed and broadcast, by a
/// node that has a key; a timeout becomes a timer; a vote with a timeout
/// gives both. Of a commit this says nothing.
pub open spec fn actions_for(
    emission: Emission,
    height: Height,
    round: Round,
    key: Option<Seq<u8>>,
    config: TimeoutConfig,
    actions: Actions,
) -> bool {
    match emission {
        Emission::Nothing => actions.broadcasts@.len() == 0 && actions.timers@.len() == 0,
        Emission::Vote { vote_type, block_hash } => {
            &&& actions.timers@.len() == 0
            &&& match key {
                Some(k) => {
                    &&& actions.broadcasts@.len() == 1
                    &&& message_view(actions.broadcasts@[0]) == own_vote_view(
                        vote_type,
                        height,
                        round,
                        block_hash,
                        k,
                    )
                },
                None => actions.broadcasts@.len() == 0,
            }
        },
        Emission::Timeout { step } => {
            &&& actions.broadcasts@.len() == 0
            &&& actions.timers@ == seq![
                Timer {
                    event: TimeoutEvent { height, round, step },
                    duration_ms: capped_timeout(config, step, round),
                },
            ]
        },
        Emission::VoteAndTimeout { vote_type, block_hash, step } => {
            &&& actions.timers@ == seq![
                Timer {
                    event: TimeoutEvent { height, round, step },
                    duration_ms: capped_timeout(config, step, round),
                },
            ]
            &&& match key {
                Some(k) => {
                    &&& actions.broadcasts@.len() == 1
                    &&& message_view(actions.broadcasts@[0]) == own_vote_view(
                        vote_type,
                        height,
                        round,
                        block_hash,
                        k,
                    )
                },
                None => actions.broadcasts@.len() == 0,
            }
        },
        Emission::Commit { block_hash } => true,
    }
}

/// The optional block, borrowed.
pub open spec fn borrowed(block: &Option<Block>) -> Option<&Block> {
    match block {
        Some(b) => Some(b),
        None => None,
    }
}

/// Whether a commit is among the messages.
pub open spec fn has_commit(msgs: Seq<ConsensusMessage>) -> bool {
    exists|i: int| 0 <= i < msgs.len() && (#[trigger] msgs[i]) is CommitBlock
}

/// Whether the commit of `block_hash` at `height` is among the messages.
pub open spec fn has_commit_of(msgs: Seq<ConsensusMessage>, height: Height, block_hash: BlockHash) -> bool {
    exists|i: int|
        0 <= i < msgs.len() && #[trigger] msgs[i] == (ConsensusMessage::CommitBlock {
            height,
            block_hash,
        })
}

/// A commit among the broadcasts for the outputs of the core is among the
/// outputs.
pub proof fn lemma_broadcast_commits(msgs: Seq<ConsensusMessage>, key: Option<Seq<u8>>, n: int)
    requires
        0 <= n <= msgs.len(),
    ensures
        forall|i: int|
            0 <= i < broadcasts_upto(msgs, key, n).len() && (#[trigger] broadcasts_upto(
                msgs,
                key,
                n,
            )[i]) is CommitBlock ==> exists|j: int|
                0 <= j < n && message_view(#[trigger] msgs[j]) == broadcasts_upto(msgs, key, n)[i]
                    && msgs[j] is CommitBlock,
    decreases n,
{
    if n > 0 {
        lemma_broadcast_commits(msgs, key, n - 1);
        let before = broadcasts_upto(msgs, key, n - 1);
        let now = broadcasts_upto(msgs, key, n);
        assert forall|i: int| 0 <= i < now.len() && (#[trigger] now[i]) is CommitBlock implies exists|
            j: int,
        |
            0 <= j < n && message_view(#[trigger] msgs[j]) == now[i] && msgs[j] is CommitBlock by {
            if i < before.len() {
                assert(now[i] == before[i]);
            } else {
                assert(message_view(msgs[n - 1]) == now[i]);
            }
        }
    }
}

/// What is broadcast and scheduled for at most one output of the core.
pub proof fn lemma_one_output(out: Seq<ConsensusMessage>, key: Option<Seq<u8>>, config: TimeoutConfig)
    requires
        out.len() <= 1,
    ensures
        out.len() == 0 ==> broadcasts_upto(out, key, 0).len() == 0 && timers_upto(
            out,
            config,
            0,
        ).len() == 0,
        out.len() == 1 ==> broadcasts_upto(out, key, 1) == (match broadcast_for(out[0], key) {
            Some(view) => seq![view],
            None => Seq::<MessageView>::empty(),
        }),
        out.len() == 1 ==> timers_upto(out, config, 1) == (match out[0] {
            ConsensusMessage::ScheduleTimeout(event) => seq![
                Timer { event, duration_ms: capped_timeout(config, event.step, event.round) },
            ],
            _ => Seq::<Timer>::empty(),
        }),
        out.len() == 1 ==> (has_commit(out) <==> out[0] is CommitBlock),
        out.len() == 0 ==> !has_commit(out),
{
    reveal_with_fuel(broadcasts_upto, 2);
    reveal_with_fuel(timers_upto, 2);
    if out.len() == 1 {
        assert(broadcasts_upto(out, key, 0) =~= Seq::<MessageView>::empty());
        assert(broadcasts_upto(out, key, 1) =~= (match broadcast_for(out[0], key) {
            Some(view) => seq![view],
            None => Seq::<MessageView>::empty(),
        }));
        assert(timers_upto(out, config, 1) =~= (match out[0] {
            ConsensusMessage::ScheduleTimeout(event) => seq![
                Timer { event, duration_ms: capped_timeout(config, event.step, event.round) },
            ],
            _ => Seq::<Timer>::empty(),
        }));
    }
}

/// What is broadcast and scheduled for a vote with a timeout behind it.
pub proof fn lemma_vote_and_timeout(
    out: Seq<ConsensusMessage>,
    key: Option<Seq<u8>>,
    config: TimeoutConfig,
)
    requires
        out.len() == 2,
        out[0] is CastVote,
        out[1] is ScheduleTimeout,
    ensures
        broadcasts_upto(out, key, 2) == (match broadcast_for(out[0], key) {
            Some(view) => seq![view],
            None => Seq::<MessageView>::empty(),
        }),
        timers_upto(out, config, 2) == seq![
            Timer {
                event: out[1]->ScheduleTimeout_0,
                duration_ms: capped_timeout(
                    config,
                    out[1]->ScheduleTimeout_0.step,
                    out[1]->ScheduleTimeout_0.round,
                ),
            },
        ],
        !has_commit(out),
{
    reveal_with_fuel(broadcasts_upto, 3);
    reveal_with_fuel(timers_upto, 3);
    assert(broadcasts_upto(out, key, 0) =~= Seq::<MessageView>::empty());
    assert(broadcasts_upto(out, key, 2) =~= (match broadcast_for(out[0], key) {
        Some(view) => seq![view],
        None => Seq::<MessageView>::empty(),
    }));
    assert(timers_upto(out, config, 0) =~= Seq::<Timer>::empty());
    assert(timers_upto(out, config, 2) =~= seq![
        Timer {
            event: out[1]->ScheduleTimeout_0,
            duration_ms: capped_timeout(
                config,
                out[1]->ScheduleTimeout_0.step,
                out[1]->ScheduleTimeout_0.round,
            ),
        },
    ]);
}

/// The views of one message.
pub proof fn lemma_views_of_one(msgs: Seq<ConsensusMessage>)
    ensures
        message_views(msgs).len() == msgs.len(),
        msgs.len() > 0 ==> message_views(msgs)[0] == message_view(msgs[0]),
{
}

/// A commit among the outputs of the core is among the broadcasts for them.
pub proof fn lemma_commits_are_kept(msgs: Seq<ConsensusMessage>, key: Option<Seq<u8>>, n: int)
    requires
        0 <= n <= msgs.len(),
    ensures
        forall|j: int|
            0 <= j < n && (#[trigger] msgs[j]) is CommitBlock ==> exists|i: int|
                0 <= i < broadcasts_upto(msgs, key, n).len() && #[trigger] broadcasts_upto(
                    msgs,
                    key,
                    n,
                )[i] == message_view(msgs[j]),
    decreases n,
{
    if n > 0 {
        lemma_commits_are_kept(msgs, key, n - 1);
        let before = broadcasts_upto(msgs, key, n - 1);
        let now = broadcasts_upto(msgs, key, n);
        assert forall|j: int| 0 <= j < n && (#[trigger] msgs[j]) is CommitBlock implies exists|
            i: int,
        |
            0 <= i < now.len() && #[trigger] now[i] == message_view(msgs[j]) by {
            if j < n - 1 {
                let i = choose|i: int|
                    0 <= i < before.len() && #[trigger] before[i] == message_view(msgs[j]);
                assert(now[i] == before[i]);
            } else {
                assert(now[now.len() - 1] == message_view(msgs[j]));
            }
        }
    }
}

/// The votes among the first `n` messages, in order.
pub open spec fn votes_upto(msgs: Seq<ConsensusMessage>, n: int) -> Seq<Vote>
    decreases n,
{
    if n <= 0 {
        Seq::<Vote>::empty()
    } else {
        match msgs[n - 1] {
            ConsensusMessage::CastVote(vote) => votes_upto(msgs, n - 1).push(vote),
            _ => votes_upto(msgs, n - 1),
        }
    }
}

/// The core, in the step Propose at `height` and `round`, admits what a
/// node with the key `key` proposes there exactly where the validator whose
/// turn it is has the public key of that key.
pub proof fn lemma_own_proposal_admitted(
    node: Node,
    bft: BftStateMachine,
    key: [u8; 32],
    msg: ConsensusMessage,
    height: Height,
    round: Round,
)
    requires
        node.signing_key == Some(key),
        bft.validators == node.bft.validators,
        bft.height == height,
        bft.round == round,
        bft.step == RoundStep::Propose,
        msg matches ConsensusMessage::ProposeBlock { proposal, block: Some(block) }
            && proposal.height == height && proposal.round == round && proposal.proposer.0@
            == ed25519_public_key(key@) && proposal.block_hash.0@ == block_hash(block.header),
    ensures
        msg matches ConsensusMessage::ProposeBlock { proposal, block: Some(block) }
            && (bft.admits_proposal(proposal, Some(&block)) <==> node.seats_own_key(
            height,
            round,
        )),
{
    let proposal = msg->ProposeBlock_proposal;
    if node.seats_own_key(height, round) {
        let seat = bft.validators@[bft.proposer_of(height, round) as int];
        assert(seat.0 =~= proposal.proposer.0);
    }
}

impl Actions {
    /// The votes that the node casts with these actions, in order. The
    /// node is to see them too: the caller hands each back to the node as a
    /// message, as it does with the votes of the peers.
    pub fn own_votes(&self) -> (votes: Vec<Vote>)
        ensures
            votes@ == votes_upto(self.broadcasts@, self.broadcasts@.len() as int),
    {
        let mut votes: Vec<Vote> = Vec::new();
        let mut i: usize = 0;
        while i < self.broadcasts.len()
            invariant
                i <= self.broadcasts@.len(),
                votes@ == votes_upto(self.broadcasts@, i as int),
            decreases self.broadcasts@.len() - i,
        {
            match &self.broadcasts[i] {
                ConsensusMessage::CastVote(vote) => {
                    votes.push(*vote);
                },
                _ => {},
            }
            i += 1;
        }
        votes
    }

    /// Whether nothing is to be done.
    pub open spec fn is_empty(self) -> bool {
        &&& self.broadcasts@.len() == 0
        &&& self.timers@.len() == 0
        &&& self.commits@.len() == 0
        &&& !self.exhausted
    }

    /// No action.
    pub fn new() -> (actions: Self)
        ensures
            actions.broadcasts@.len() == 0,
            actions.timers@.len() == 0,
            actions.commits@.len() == 0,
            !actions.exhausted,
    {
        Actions { broadcasts: Vec::new(), timers: Vec::new(), commits: Vec::new(), exhausted: false }
    }
}

impl Node {
    /// The parts are well-formed, and the fee market has a gas target.
    pub open spec fn wf(self) -> bool {
        &&& self.state.wf()
        &&& self.bft.wf()
        &&& self.state.fee_market.spec_config().target_gas_per_block > 0
    }

    /// What no event changes: the key, the validators, this node's position
    /// among them, the timeouts, the fee rules, the length of an epoch and
    /// the stakes.
    pub open spec fn same_identity(self, other: Self) -> bool {
        &&& self.signing_key == other.signing_key
        &&& self.bft.validators == other.bft.validators
        &&& self.bft.validator_index == other.bft.validator_index
        &&& self.bft.timeout_config == other.bft.timeout_config
        &&& self.state.fee_market.spec_config() == other.state.fee_market.spec_config()
        &&& self.state.epoch_length == other.state.epoch_length
        &&& self.state.staking_pool == other.state.staking_pool
    }

    /// Whether this node proposes at `height` and `round`: it has a key and
    /// is the proposer there.
    pub open spec fn proposes_at(self, height: Height, round: Round) -> bool {
        self.signing_key is Some && (self.bft.validator_index matches Some(index) && index
            == self.bft.proposer_of(height, round))
    }

    /// The key as bytes.
    pub open spec fn key_view(self) -> Option<Seq<u8>> {
        match self.signing_key {
            Some(k) => Some(k@),
            None => None,
        }
    }

    /// Whether the node stands where the commit `last` left it: at the next
    /// height, in round 0, with the hash and the height of the commit
    /// recorded.
    pub open spec fn follows(self, last: Committed) -> bool {
        &&& self.bft.height == Height((last.height.0 + 1) as u64)
        &&& self.bft.round == Round(0)
        &&& self.state.last_block_hash == last.block_hash
        &&& self.state.rpc.current_height == last.height.0
    }

    /// Whether the validator that proposes at `height` and `round` has the
    /// public key of this node's signing key: the core then admits what this
    /// node proposes there.
    pub open spec fn seats_own_key(self, height: Height, round: Round) -> bool {
        &&& self.bft.validators@.len() > 0
        &&& self.signing_key matches Some(key)
        &&& self.bft.validators@[self.bft.proposer_of(height, round) as int].0@
            == ed25519_public_key(key@)
    }

    /// The step of the core after this node had its turn to propose at
    /// `height` and `round`, coming from the step Propose: it has taken its
    /// own proposal and waits for the prevotes, or it waits for a proposal.
    pub open spec fn step_after_turn(self, height: Height, round: Round) -> RoundStep {
        if self.proposes_at(height, round) && self.seats_own_key(height, round) {
            RoundStep::Prevote
        } else {
            RoundStep::Propose
        }
    }

    /// Whether `after` and `actions` are what the commit of `block_hash` at
    /// `height` makes of the node `self`: the transactions of the block
    /// that the core had cached for the hash, or else pending ones, are
    /// applied to the accounts; height and hash are recorded; the core is
    /// at the next height in round 0, whose propose timeout is the one
    /// timer; and the one broadcast, if this node proposes there, is its
    /// proposal on the committed block.
    pub open spec fn committed(
        self,
        after: Node,
        actions: Actions,
        height: Height,
        block_hash: BlockHash,
        timestamp: u64,
    ) -> bool {
        let next = Height((height.0 + 1) as u64);
        let applied = transfers_of(
            transaction_views(actions.commits@[0].summary.transactions@),
        );
        &&& !actions.exhausted
        &&& actions.commits@.len() == 1
        &&& actions.commits@[0].height == height
        &&& actions.commits@[0].block_hash == block_hash
        &&& (self.bft.proposed_blocks.cached(block_hash) matches Some(block) ==> transaction_views(
            actions.commits@[0].summary.transactions@,
        ) == block.transactions)
        &&& after.state.rpc.state_db@ == accounts_after_all(self.state.rpc.state_db@, applied)
        &&& actions.commits@[0].summary.success == successes(self.state.rpc.state_db@, applied)
        &&& after.state.rpc.current_height == height.0
        &&& after.state.last_block_hash == block_hash
        &&& after.state.rpc.block_store@.len() == self.state.rpc.block_store@.len() + 1
        &&& after.bft.height == next
        &&& after.bft.round == Round(0)
        &&& after.bft.step == self.step_after_turn(next, Round(0))
        &&& actions.timers@.len() == 1
        &&& actions.timers@[0].event == (TimeoutEvent {
            height: next,
            round: Round(0),
            step: TimeoutStep::Propose,
        })
        &&& actions.broadcasts@.len() == (if self.proposes_at(next, Round(0)) {
            1nat
        } else {
            0nat
        })
        &&& (self.proposes_at(next, Round(0)) ==> is_own_proposal(
            actions.broadcasts@[0],
            self.signing_key->Some_0@,
            next,
            Round(0),
            block_hash,
            after.state.rpc.state_db.state_root(),
            after.state.rpc.mempool.entries(),
            timestamp,
        ))
    }

    /// Whether a timeout cannot be handled: it would start the round after
    /// the last one that 32 bits can count.
    pub open spec fn cannot_time_out(self, event: TimeoutEvent) -> bool {
        &&& self.bft.timeout_applies(event)
        &&& event.step == TimeoutStep::Precommit
        &&& self.bft.round.0 == u32::MAX
    }

    /// Whether the commit of `height` cannot be applied: the height or, at
    /// the end of an epoch, the epoch has no successor.
    pub open spec fn cannot_commit(self, height: Height) -> bool {
        ||| height.0 == u64::MAX
        ||| (ends_epoch(height.0, self.state.epoch_length)
            && self.state.validator_set.state().current_epoch == u64::MAX)
    }

    /// Applies the commit of the block `block_hash` at `height` and moves
    /// the core to the next height. The block is the one that the core has
    /// cached for the hash; without it, pending transactions are applied.
    /// At the new height round 0 starts; its timeout is added to the
    /// timers, and a node that is the proposer there proposes a block on
    /// the committed one.
    pub fn commit(
        &mut self,
        height: Height,
        block_hash: BlockHash,
        timestamp: u64,
        actions: &mut Actions,
    )
        requires
            old(self).wf(),
            all_sendable(old(actions).broadcasts@),
        ensures
            final(self).wf(),
            final(self).same_identity(*old(self)),
            all_sendable(final(actions).broadcasts@),
            old(actions).broadcasts@.is_prefix_of(final(actions).broadcasts@),
            old(actions).timers@.is_prefix_of(final(actions).timers@),
            old(self).cannot_commit(height) ==> {
                &&& *final(self) == *old(self)
                &&& final(actions).exhausted
                &&& final(actions).commits@ == old(actions).commits@
                &&& final(actions).broadcasts@ == old(actions).broadcasts@
                &&& final(actions).timers@ == old(actions).timers@
            },
            !old(self).cannot_commit(height) ==> {
                &&& final(actions).exhausted == old(actions).exhausted
                &&& final(actions).commits@.len() == old(actions).commits@.len() + 1
                &&& final(actions).commits@.drop_last() == old(actions).commits@
                &&& final(actions).commits@.last().height == height
                &&& final(actions).commits@.last().block_hash == block_hash
                &&& (old(self).bft.proposed_blocks.cached(block_hash) matches Some(block)
                    ==> transaction_views(final(actions).commits@.last().summary.transactions@)
                    == block.transactions)
                &&& final(self).state.rpc.state_db@ == accounts_after_all(
                    old(self).state.rpc.state_db@,
                    transfers_of(
                        transaction_views(final(actions).commits@.last().summary.transactions@),
                    ),
                )
                &&& final(self).state.rpc.current_height == height.0
                &&& final(self).state.last_block_hash == block_hash
                &&& final(self).state.rpc.block_store@.len() == old(
                    self,
                ).state.rpc.block_store@.len() + 1
                &&& final(self).bft.height == Height((height.0 + 1) as u64)
                &&& final(self).bft.round == Round(0)
                &&& final(actions).timers@.len() == old(actions).timers@.len() + 1
                &&& final(actions).timers@.last().event == (TimeoutEvent {
                    height: Height((height.0 + 1) as u64),
                    round: Round(0),
                    step: TimeoutStep::Propose,
                })
                &&& final(actions).broadcasts@.len() <= old(actions).broadcasts@.len() + 1
                &&& (final(actions).broadcasts@.len() > old(actions).broadcasts@.len()
                    <==> old(self).proposes_at(Height((height.0 + 1) as u64), Round(0)))
                &&& final(actions).commits@.last().summary.success == successes(
                    old(self).state.rpc.state_db@,
                    transfers_of(
                        transaction_views(final(actions).commits@.last().summary.transactions@),
                    ),
                )
                &&& (old(self).proposes_at(Height((height.0 + 1) as u64), Round(0))
                    ==> is_own_proposal(
                    final(actions).broadcasts@.last(),
                    old(self).signing_key->Some_0@,
                    Height((height.0 + 1) as u64),
                    Round(0),
                    block_hash,
                    final(self).state.rpc.state_db.state_root(),
                    final(self).state.rpc.mempool.entries(),
                    timestamp,
                ))
                &&& final(self).bft.step == old(self).step_after_turn(
                    Height((height.0 + 1) as u64),
                    Round(0),
                )
            },
    {
        let at_epoch_end = self.state.epoch_length > 0 && height.0 > 0 && height.0
            % self.state.epoch_length == 0;
        if height.0 == u64::MAX || (at_epoch_end && self.state.validator_set.current_epoch()
            == u64::MAX) {
            actions.exhausted = true;
            return ;
        }
        let committed: Option<Block> = match self.bft.get_committed_block(&block_hash) {
            Some(block) => Some(block.clone()),
            None => None,
        };
        let summary = apply_commit(
            &mut self.state,
            height,
            block_hash,
            committed.as_ref(),
            timestamp,
        );
        let ghost commits_before = actions.commits@;
        actions.commits.push(Committed { height, block_hash, summary });
        proof {
            assert(actions.commits@.drop_last() =~= commits_before);
        }
        let next = Height(height.0 + 1);
        let advance = self.bft.advance_height(next);
        let ghost advanced = advance@;
        let key: Option<&[u8; 32]> = self.signing_key.as_ref();
        let ghost key_view: Option<Seq<u8>> = match key {
            Some(k) => Some(k@),
            None => None,
        };
        let out = process_bft_output(advance, key, &self.bft.timeout_config);
        proof {
            reveal_with_fuel(broadcasts_upto, 2);
            reveal_with_fuel(timers_upto, 2);
            assert(message_views(out.to_broadcast@).len() == 0);
            assert(out.to_broadcast@.len() == 0);
            assert(out.timers@.len() == 1);
        }
        let ghost before_turn = self.bft;
        if self.bft.is_proposer() {
            match key {
                Some(sk) => {
                    let msg = propose_block(
                        &mut self.bft,
                        sk,
                        next,
                        Round(0),
                        self.state.last_block_hash,
                        &self.state.rpc,
                        timestamp,
                    );
                    let ghost sent = actions.broadcasts@;
                    proof {
                        lemma_own_proposal_admitted(*old(self), before_turn, *sk, msg, next, Round(0));
                    }
                    actions.broadcasts.push(msg);
                    proof {
                        assert(sent.is_prefix_of(actions.broadcasts@));
                    }
                },
                None => {},
            }
        }
        let ghost timers_before = actions.timers@;
        actions.timers.push(out.timers[0]);
        proof {
            assert(timers_before.is_prefix_of(actions.timers@));
        }
    }

    /// Settles what the core emitted: votes are signed and go to the
    /// broadcasts, as proposals do; timeouts go to the timers; and a commit
    /// is applied with `commit`. Where a commit cannot be applied, the rest
    /// is left out.
    fn settle(&mut self, outputs: Vec<ConsensusMessage>, timestamp: u64, actions: &mut Actions)
        requires
            old(self).wf(),
            all_sendable(old(actions).broadcasts@),
            !old(actions).exhausted,
        ensures
            final(self).wf(),
            final(self).same_identity(*old(self)),
            all_sendable(final(actions).broadcasts@),
            old(actions).broadcasts@.is_prefix_of(final(actions).broadcasts@),
            old(actions).commits@.is_prefix_of(final(actions).commits@),
            final(actions).commits@.len() <= old(actions).commits@.len() + outputs@.len(),
            final(actions).exhausted ==> {
                &&& final(actions).commits@.len() < old(actions).commits@.len() + outputs@.len()
                &&& exists|height: Height, block_hash: BlockHash|
                    #[trigger] has_commit_of(outputs@, height, block_hash) && final(self).cannot_commit(height)
            },
            has_commit(outputs@) && !final(actions).exhausted ==> final(actions).commits@.len()
                > old(actions).commits@.len(),
            !has_commit(outputs@) ==> {
                &&& *final(self) == *old(self)
                &&& final(actions).exhausted == old(actions).exhausted
                &&& final(actions).commits@ == old(actions).commits@
                &&& message_views(final(actions).broadcasts@) == message_views(
                    old(actions).broadcasts@,
                ) + broadcasts_upto(outputs@, old(self).key_view(), outputs@.len() as int)
                &&& final(actions).timers@ == old(actions).timers@ + timers_upto(
                    outputs@,
                    old(self).bft.timeout_config,
                    outputs@.len() as int,
                )
            },
            final(actions).commits@.len() > old(actions).commits@.len() ==> final(self).follows(
                final(actions).commits@.last(),
            ),
            final(actions).commits@.len() == old(actions).commits@.len() ==> final(self).state
                == old(self).state && final(self).bft == old(self).bft,
            forall|i: int|
                old(actions).commits@.len() <= i < final(actions).commits@.len() ==> has_commit_of(
                    outputs@,
                    (#[trigger] final(actions).commits@[i]).height,
                    final(actions).commits@[i].block_hash,
                ),
    {
        let ghost start = *self;
        let ghost key_view = self.key_view();
        let ghost outs = outputs@;
        let out = process_bft_output(outputs, self.signing_key.as_ref(), &self.bft.timeout_config);
        let ghost timers_before = actions.timers@;
        let mut timers = out.timers;
        actions.timers.append(&mut timers);
        let ghost all = out.to_broadcast@;
        let ghost sent_before = actions.broadcasts@;
        let ghost commits_before = actions.commits@;
        let mut rest = out.to_broadcast;
        let ghost mut done: int = 0;
        proof {
            lemma_no_timeout_is_broadcast(outs, key_view, outs.len() as int);
            lemma_broadcast_commits(outs, key_view, outs.len() as int);
            assert(rest@ =~= all.subrange(0, all.len() as int));
            assert(actions.broadcasts@ =~= sent_before + all.subrange(0, 0));
            assert(message_views(all).len() == all.len());
            assert forall|i: int| 0 <= i < all.len() implies !(#[trigger] all[i]
                is ScheduleTimeout) by {
                assert(message_views(all)[i] == message_view(all[i]));
            }
            assert forall|i: int| 0 <= i < all.len() && (#[trigger] all[i])
                is CommitBlock implies has_commit_of(
                outs,
                all[i]->CommitBlock_height,
                all[i]->CommitBlock_block_hash,
            ) by {
                assert(message_views(all)[i] == message_view(all[i]));
                let j = choose|j: int|
                    0 <= j < outs.len() && message_view(#[trigger] outs[j]) == broadcasts_upto(
                        outs,
                        key_view,
                        outs.len() as int,
                    )[i] && outs[j] is CommitBlock;
                assert(outs[j]->CommitBlock_block_hash.0 =~= all[i]->CommitBlock_block_hash.0);
                assert(outs[j] == all[i]);
            }
        }
        while rest.len() > 0 && !actions.exhausted
            invariant
                self.wf(),
                self.same_identity(start),
                start == *old(self),
                all_sendable(actions.broadcasts@),
                sent_before == old(actions).broadcasts@,
                commits_before == old(actions).commits@,
                sent_before.is_prefix_of(actions.broadcasts@),
                commits_before.is_prefix_of(actions.commits@),
                !old(actions).exhausted,
                timers_before == old(actions).timers@,
                0 <= done <= all.len(),
                all.len() <= outs.len(),
                actions.commits@.len() <= commits_before.len() + done,
                actions.exhausted ==> {
                    &&& actions.commits@.len() < commits_before.len() + done
                    &&& exists|height: Height, block_hash: BlockHash|
                        #[trigger] has_commit_of(outs, height, block_hash) && self.cannot_commit(
                            height,
                        )
                },
                (exists|i: int| 0 <= i < done && (#[trigger] all[i]) is CommitBlock)
                    && !actions.exhausted ==> actions.commits@.len() > commits_before.len(),
                rest@ == all.subrange(done, all.len() as int),
                forall|i: int| 0 <= i < all.len() ==> !(#[trigger] all[i] is ScheduleTimeout),
                forall|i: int|
                    0 <= i < all.len() && (#[trigger] all[i]) is CommitBlock ==> has_commit_of(
                        outs,
                        all[i]->CommitBlock_height,
                        all[i]->CommitBlock_block_hash,
                    ),
                (forall|i: int| 0 <= i < done ==> !(#[trigger] all[i] is CommitBlock)) ==> {
                    &&& *self == start
                    &&& actions.exhausted == old(actions).exhausted
                    &&& actions.commits@ == commits_before
                    &&& actions.broadcasts@ == sent_before + all.subrange(0, done)
                    &&& actions.timers@ == timers_before + out.timers@
                },
                actions.commits@.len() > commits_before.len() ==> self.follows(
                    actions.commits@.last(),
                ),
                actions.commits@.len() == commits_before.len() ==> self.state == start.state
                    && self.bft == start.bft,
                forall|i: int|
                    commits_before.len() <= i < actions.commits@.len() ==> has_commit_of(
                        outs,
                        (#[trigger] actions.commits@[i]).height,
                        actions.commits@[i].block_hash,
                    ),
            decreases rest@.len(),
        {
            let msg = rest.remove(0);
            proof {
                assert(msg == all[done]);
                assert(rest@ =~= all.subrange(done + 1, all.len() as int));
            }
            let ghost sent = actions.broadcasts@;
            let ghost applied = actions.commits@;
            match msg {
                ConsensusMessage::CommitBlock { height, block_hash } => {
                    let ghost was = *self;
                    self.commit(height, block_hash, timestamp, actions);
                    proof {
                        assert(msg == all[done]);
                        assert(has_commit_of(outs, height, block_hash));
                        if actions.exhausted {
                            assert(was.cannot_commit(height));
                            assert(*self == was);
                        }
                        assert(applied.is_prefix_of(actions.commits@)) by {
                            if actions.commits@.len() > applied.len() {
                                assert(actions.commits@.drop_last() == applied);
                            }
                        }
                        assert forall|i: int|
                            commits_before.len() <= i < actions.commits@.len() implies has_commit_of(
                            outs,
                            (#[trigger] actions.commits@[i]).height,
                            actions.commits@[i].block_hash,
                        ) by {
                            if i < applied.len() {
                                assert(actions.commits@[i] == applied[i]);
                            }
                        }
                    }
                },
                other => {
                    actions.broadcasts.push(other);
                    proof {
                        assert(sent.is_prefix_of(actions.broadcasts@));
                        assert(all.subrange(0, done + 1) =~= all.subrange(0, done).push(msg));
                        assert((sent_before + all.subrange(0, done)).push(msg) =~= sent_before
                            + all.subrange(0, done + 1));
                    }
                },
            }
            proof {
                done = done + 1;
                if !actions.exhausted && (exists|i: int|
                    0 <= i < done && (#[trigger] all[i]) is CommitBlock) {
                    let i = choose|i: int| 0 <= i < done && (#[trigger] all[i]) is CommitBlock;
                    if i < done - 1 {
                        assert(all[i] is CommitBlock);
                    }
                }
            }
        }
        proof {
            if has_commit(outs) && !actions.exhausted {
                let j = choose|j: int| 0 <= j < outs.len() && (#[trigger] outs[j]) is CommitBlock;
                lemma_commits_are_kept(outs, key_view, outs.len() as int);
                let i = choose|i: int|
                    0 <= i < broadcasts_upto(outs, key_view, outs.len() as int).len()
                        && #[trigger] broadcasts_upto(outs, key_view, outs.len() as int)[i]
                        == message_view(outs[j]);
                assert(message_views(all)[i] == message_view(all[i]));
                assert(all[i] is CommitBlock);
                assert(done == all.len());
            }
            if !has_commit(outs) {
                assert forall|i: int| 0 <= i < all.len() implies !(#[trigger] all[i]
                    is CommitBlock) by {
                    if all[i] is CommitBlock {
                        assert(has_commit_of(
                            outs,
                            all[i]->CommitBlock_height,
                            all[i]->CommitBlock_block_hash,
                        ));
                    }
                }
                assert(done == all.len());
                assert(all.subrange(0, done) =~= all);
                assert(message_views(sent_before + all) =~= message_views(sent_before)
                    + message_views(all));
            }
        }
    }

    /// Handles a consensus message from the network. A proposal, a prevote
    /// or a precommit goes to the core, and what the core emits is settled:
    /// the node broadcasts its own vote and schedules timeouts, and where
    /// the precommit completes a quorum, the commit is applied. A commit
    /// from the network is applied as it is. A timeout is no message of the
    /// network, and is dropped.
    pub fn on_message(&mut self, msg: ConsensusMessage, timestamp: u64) -> (actions: Actions)
        requires
            old(self).wf(),
        ensures
            final(self).wf(),
            final(self).same_identity(*old(self)),
            all_sendable(actions.broadcasts@),
            actions.commits@.len() <= 1,
            actions.commits@.len() == 1 ==> final(self).follows(actions.commits@[0]),
            actions.commits@.len() == 0 ==> final(self).state == old(self).state,
            match msg {
                ConsensusMessage::ScheduleTimeout(event) => *final(self) == *old(self)
                    && actions.is_empty(),
                ConsensusMessage::CommitBlock { height, block_hash } => if old(self).cannot_commit(
                    height,
                ) {
                    &&& *final(self) == *old(self)
                    &&& actions.exhausted
                    &&& actions.commits@.len() == 0
                    &&& actions.broadcasts@.len() == 0
                    &&& actions.timers@.len() == 0
                } else {
                    old(self).committed(*final(self), actions, height, block_hash, timestamp)
                },
                ConsensusMessage::ProposeBlock { proposal, block } => {
                    &&& actions.commits@.len() == 0
                    &&& !actions.exhausted
                    &&& final(self).bft.round == old(self).bft.round
                    &&& final(self).bft.height == old(self).bft.height
                    &&& if old(self).bft.admits_proposal(proposal, borrowed(&block)) {
                        &&& final(self).bft.step == RoundStep::Prevote
                        &&& final(self).bft.round_state.proposal == Some(proposal.block_hash)
                        &&& match block {
                            Some(b) => final(self).bft.proposed_blocks.cached(proposal.block_hash)
                                == Some(b@),
                            None => final(self).bft.proposed_blocks == old(
                                self,
                            ).bft.proposed_blocks,
                        }
                        &&& actions_for(
                            Emission::Vote {
                                vote_type: VoteType::Prevote,
                                block_hash: prevote_choice(
                                    old(self).bft.locked_value,
                                    old(self).bft.locked_round,
                                    proposal,
                                ),
                            },
                            old(self).bft.height,
                            old(self).bft.round,
                            old(self).key_view(),
                            old(self).bft.timeout_config,
                            actions,
                        )
                    } else {
                        &&& final(self).bft.step == old(self).bft.step
                        &&& final(self).bft.round_state.proposal == old(
                            self,
                        ).bft.round_state.proposal
                        &&& final(self).bft.proposed_blocks == old(self).bft.proposed_blocks
                        &&& actions.is_empty()
                    }
                },
                ConsensusMessage::CastVote(vote) => if old(self).bft.is_stale(
                    vote.height,
                    vote.round,
                ) {
                    *final(self) == *old(self) && actions.is_empty()
                } else {
                    match vote.vote_type {
                        VoteType::Prevote => {
                            let tally = final(self).bft.round_state.prevotes;
                            let next = old(self).bft.after_prevote(tally);
                            &&& actions.commits@.len() == 0
                            &&& !actions.exhausted
                            &&& tally.votes() == (if old(self).bft.round_state.prevotes.admits(
                                vote,
                            ) {
                                old(self).bft.round_state.prevotes.votes().push(vote)
                            } else {
                                old(self).bft.round_state.prevotes.votes()
                            })
                            &&& final(self).bft.height == old(self).bft.height
                            &&& final(self).bft.round == old(self).bft.round
                            &&& final(self).bft.step == next.step
                            &&& final(self).bft.locked_value == next.locked_value
                            &&& final(self).bft.locked_round == next.locked_round
                            &&& final(self).bft.valid_value == next.valid_value
                            &&& final(self).bft.valid_round == next.valid_round
                            &&& actions_for(
                                next.emission,
                                old(self).bft.height,
                                old(self).bft.round,
                                old(self).key_view(),
                                old(self).bft.timeout_config,
                                actions,
                            )
                        },
                        VoteType::Precommit => {
                            &&& actions.commits@.len() == 1 ==> {
                                let hash = actions.commits@[0].block_hash;
                                let counted = if old(self).bft.round_state.precommits.admits(
                                    vote,
                                ) {
                                    old(self).bft.round_state.precommits.votes().push(vote)
                                } else {
                                    old(self).bft.round_state.precommits.votes()
                                };
                                &&& old(self).bft.step != RoundStep::Commit
                                &&& is_quorum_of(
                                    count_for(counted, Some(hash)),
                                    old(self).bft.round_state.precommits.total_validators as nat,
                                )
                                &&& old(self).committed(
                                    *final(self),
                                    actions,
                                    old(self).bft.height,
                                    hash,
                                    timestamp,
                                )
                            }
                            &&& (actions.commits@.len() == 0 && !actions.exhausted) ==> {
                                let tally = final(self).bft.round_state.precommits;
                                let next = old(self).bft.after_precommit(tally);
                                &&& tally.votes() == (if old(
                                    self,
                                ).bft.round_state.precommits.admits(vote) {
                                    old(self).bft.round_state.precommits.votes().push(vote)
                                } else {
                                    old(self).bft.round_state.precommits.votes()
                                })
                                &&& !(next.emission is Commit)
                                &&& final(self).bft.height == old(self).bft.height
                                &&& final(self).bft.round == old(self).bft.round
                                &&& final(self).bft.step == next.step
                                &&& actions_for(
                                    next.emission,
                                    old(self).bft.height,
                                    old(self).bft.round,
                                    old(self).key_view(),
                                    old(self).bft.timeout_config,
                                    actions,
                                )
                            }
                            &&& actions.exhausted ==> {
                                &&& old(self).cannot_commit(old(self).bft.height)
                                &&& actions.commits@.len() == 0
                                &&& actions.broadcasts@.len() == 0
                                &&& actions.timers@.len() == 0
                                &&& final(self).bft.height == old(self).bft.height
                                &&& final(self).bft.round == old(self).bft.round
                                &&& final(self).bft.step == RoundStep::Commit
                            }
                        },
                    }
                },
            },
    {
        let mut actions = Actions::new();
        match msg {
            ConsensusMessage::ProposeBlock { proposal, block } => {
                let outputs = self.bft.on_proposal(&proposal, block.as_ref());
                let ghost outs = outputs@;
                self.settle(outputs, timestamp, &mut actions);
                proof {
                    lemma_one_output(outs, old(self).key_view(), old(self).bft.timeout_config);
                    lemma_views_of_one(actions.broadcasts@);
                }
            },
            ConsensusMessage::CastVote(vote) => {
                let outputs = match vote.vote_type {
                    VoteType::Prevote => self.bft.on_prevote(&vote),
                    VoteType::Precommit => self.bft.on_precommit(&vote),
                };
                let ghost outs = outputs@;
                let only_commit: Option<(Height, BlockHash)> = if outputs.len() == 1 {
                    match &outputs[0] {
                        ConsensusMessage::CommitBlock { height, block_hash } => Some(
                            (*height, *block_hash),
                        ),
                        _ => None,
                    }
                } else {
                    None
                };
                match only_commit {
                    Some((height, block_hash)) => {
                        self.commit(height, block_hash, timestamp, &mut actions);
                    },
                    None => {
                        self.settle(outputs, timestamp, &mut actions);
                        proof {
                            lemma_one_output(
                                outs,
                                old(self).key_view(),
                                old(self).bft.timeout_config,
                            );
                            lemma_views_of_one(actions.broadcasts@);
                        }
                    },
                }
            },
            ConsensusMessage::CommitBlock { height, block_hash } => {
                self.commit(height, block_hash, timestamp, &mut actions);
            },
            ConsensusMessage::ScheduleTimeout(_) => {},
        }
        actions
    }

    /// Handles a timeout that fired. The core drops it where the node has
    /// left the height, the round or the step; else a propose timeout makes
    /// the node prevote nil and wait for the prevotes, a prevote timeout
    /// makes the node precommit nil,
    /// and a precommit timeout starts the next round. After a precommit
    /// timeout a node that is the proposer of the round in which the core
    /// now is proposes a block; its proposal is broadcast first.
    pub fn on_timeout(&mut self, event: TimeoutEvent, timestamp: u64) -> (actions: Actions)
        requires
            old(self).wf(),
        ensures
            final(self).wf(),
            final(self).same_identity(*old(self)),
            all_sendable(actions.broadcasts@),
            final(self).state == old(self).state,
            final(self).bft.height == old(self).bft.height,
            actions.commits@.len() == 0,
            actions.exhausted == old(self).cannot_time_out(event),
            actions.exhausted ==> *final(self) == *old(self) && actions.broadcasts@.len() == 0
                && actions.timers@.len() == 0,
            !old(self).bft.timeout_applies(event) ==> {
                &&& final(self).bft.round == old(self).bft.round
                &&& actions.timers@.len() == 0
                &&& event.step != TimeoutStep::Precommit ==> *final(self) == *old(self)
                    && actions.broadcasts@.len() == 0
            },
            old(self).bft.timeout_applies(event) ==> match event.step {
                TimeoutStep::Propose => {
                    &&& final(self).bft.step == RoundStep::Prevote
                    &&& final(self).bft.round == old(self).bft.round
                    &&& actions_for(
                        Emission::VoteAndTimeout {
                            vote_type: VoteType::Prevote,
                            block_hash: None,
                            step: TimeoutStep::Prevote,
                        },
                        old(self).bft.height,
                        old(self).bft.round,
                        old(self).key_view(),
                        old(self).bft.timeout_config,
                        actions,
                    )
                },
                TimeoutStep::Prevote => {
                    &&& final(self).bft.step == RoundStep::Precommit
                    &&& final(self).bft.round == old(self).bft.round
                    &&& actions_for(
                        Emission::Vote { vote_type: VoteType::Precommit, block_hash: None },
                        old(self).bft.height,
                        old(self).bft.round,
                        old(self).key_view(),
                        old(self).bft.timeout_config,
                        actions,
                    )
                },
                TimeoutStep::Precommit => !actions.exhausted ==> {
                    &&& final(self).bft.round == Round((old(self).bft.round.0 + 1) as u32)
                    &&& actions.timers@ == seq![
                        Timer {
                            event: TimeoutEvent {
                                height: old(self).bft.height,
                                round: final(self).bft.round,
                                step: TimeoutStep::Propose,
                            },
                            duration_ms: capped_timeout(
                                old(self).bft.timeout_config,
                                TimeoutStep::Propose,
                                final(self).bft.round,
                            ),
                        },
                    ]
                },
            },
            event.step == TimeoutStep::Precommit && !actions.exhausted ==> actions.broadcasts@.len()
                == (if old(self).proposes_at(old(self).bft.height, final(self).bft.round) {
                1nat
            } else {
                0nat
            }),
            event.step == TimeoutStep::Precommit && !actions.exhausted ==> {
                &&& (old(self).proposes_at(old(self).bft.height, final(self).bft.round)
                    ==> is_own_proposal(
                    actions.broadcasts@[0],
                    old(self).signing_key->Some_0@,
                    old(self).bft.height,
                    final(self).bft.round,
                    old(self).state.last_block_hash,
                    old(self).state.rpc.state_db.state_root(),
                    old(self).state.rpc.mempool.entries(),
                    timestamp,
                ))
                &&& final(self).bft.step == (if old(self).bft.timeout_applies(event) || old(
                    self,
                ).bft.step == RoundStep::Propose {
                    old(self).step_after_turn(old(self).bft.height, final(self).bft.round)
                } else {
                    old(self).bft.step
                })
            },
    {
        let mut actions = Actions::new();
        let in_step = match event.step {
            TimeoutStep::Propose => self.bft.step == RoundStep::Propose,
            TimeoutStep::Prevote => self.bft.step == RoundStep::Prevote,
            TimeoutStep::Precommit => self.bft.step == RoundStep::Precommit,
        };
        let applies = event.height.0 == self.bft.height.0 && event.round.0 == self.bft.round.0
            && in_step;
        let at_precommit = match event.step {
            TimeoutStep::Precommit => true,
            _ => false,
        };
        if applies && at_precommit && self.bft.round.0 == u32::MAX {
            actions.exhausted = true;
            return actions;
        }
        let outputs = self.bft.on_timeout(event);
        let ghost outs = outputs@;
        let ghost mid = *self;
        if at_precommit && self.bft.is_proposer() {
            match self.signing_key.as_ref() {
                Some(sk) => {
                    let height = self.bft.height;
                    let round = self.bft.round;
                    let msg = propose_block(
                        &mut self.bft,
                        sk,
                        height,
                        round,
                        self.state.last_block_hash,
                        &self.state.rpc,
                        timestamp,
                    );
                    proof {
                        if mid.bft.step == RoundStep::Propose {
                            lemma_own_proposal_admitted(
                                *old(self),
                                mid.bft,
                                *sk,
                                msg,
                                height,
                                round,
                            );
                        }
                    }
                    actions.broadcasts.push(msg);
                },
                None => {},
            }
        }
        let ghost sent = actions.broadcasts@;
        self.settle(outputs, timestamp, &mut actions);
        proof {
            if outs.len() <= 1 {
                lemma_one_output(outs, old(self).key_view(), old(self).bft.timeout_config);
            } else {
                lemma_vote_and_timeout(outs, old(self).key_view(), old(self).bft.timeout_config);
            }
            lemma_views_of_one(actions.broadcasts@);
            assert(message_views(sent).len() == sent.len());
            assert(message_views(actions.broadcasts@).len() == actions.broadcasts@.len());
        }
        actions
    }

    /// Starts round 0 at the height of the core: the propose timeout is
    /// scheduled, and a node that is the proposer proposes a block.
    pub fn start(&mut self, timestamp: u64) -> (actions: Actions)
        requires
            old(self).wf(),
        ensures
            final(self).wf(),
            final(self).same_identity(*old(self)),
            all_sendable(actions.broadcasts@),
            final(self).state == old(self).state,
            final(self).bft.height == old(self).bft.height,
            final(self).bft.round == Round(0),
            actions.commits@.len() == 0,
            !actions.exhausted,
            actions.timers@ == seq![
                Timer {
                    event: TimeoutEvent {
                        height: old(self).bft.height,
                        round: Round(0),
                        step: TimeoutStep::Propose,
                    },
                    duration_ms: capped_timeout(
                        old(self).bft.timeout_config,
                        TimeoutStep::Propose,
                        Round(0),
                    ),
                },
            ],
            actions.broadcasts@.len() == (if old(self).proposes_at(old(self).bft.height, Round(0)) {
                1nat
            } else {
                0nat
            }),
            old(self).proposes_at(old(self).bft.height, Round(0)) ==> is_own_proposal(
                actions.broadcasts@[0],
                old(self).signing_key->Some_0@,
                old(self).bft.height,
                Round(0),
                old(self).state.last_block_hash,
                old(self).state.rpc.state_db.state_root(),
                old(self).state.rpc.mempool.entries(),
                timestamp,
            ),
            final(self).bft.step == old(self).step_after_turn(old(self).bft.height, Round(0)),
    {
        let mut actions = Actions::new();
        let outputs = self.bft.start_round(Round(0));
        let ghost outs = outputs@;
        let ghost mid = *self;
        if self.bft.is_proposer() {
            match self.signing_key.as_ref() {
                Some(sk) => {
                    let height = self.bft.height;
                    let msg = propose_block(
                        &mut self.bft,
                        sk,
                        height,
                        Round(0),
                        self.state.last_block_hash,
                        &self.state.rpc,
                        timestamp,
                    );
                    proof {
                        lemma_own_proposal_admitted(
                            *old(self),
                            mid.bft,
                            *sk,
                            msg,
                            height,
                            Round(0),
                        );
                    }
                    actions.broadcasts.push(msg);
                },
                None => {},
            }
        }
        let ghost sent = actions.broadcasts@;
        self.settle(outputs, timestamp, &mut actions);
        proof {
            lemma_one_output(outs, old(self).key_view(), old(self).bft.timeout_config);
            assert(message_views(sent).len() == sent.len());
            assert(message_views(actions.broadcasts@).len() == actions.broadcasts@.len());
            if sent.len() > 0 {
                assert(actions.broadcasts@[0] == sent[0]);
            }
        }
        actions
    }
}

} // verus!
