//! What a validator node does around the consensus core: it builds and
//! signs blocks, proposals and votes, turns the outputs of the state machine
//! into broadcasts and timers, and applies committed blocks.

use vstd::prelude::*;
use vstd::string::StringExecFns;
use vstd::utf8::encode_utf8;
use crate::bft::block::{
    Block,
    BlockHeader,
    Transaction,
    block_hash,
    transaction_hash,
    transaction_views,
    tx_merkle_root,
};
use crate::bft::types::{
    BlockHash,
    ConsensusMessage,
    Height,
    Proposal,
    Round,
    TimeoutConfig,
    TimeoutEvent,
    TimeoutStep,
    ValidatorId,
    Vote,
    VoteType,
};
use crate::bft::round::RoundStep;
use crate::bft::state_machine::BftStateMachine;
use crate::bft::vote::{vote_sign_bytes, vote_signed};
use crate::crypto::{
    ed25519_public_from_secret,
    ed25519_public_key,
    ed25519_sign,
    ed25519_signature,
    ed25519_verifies,
    hex_encode,
    hex_text,
};
use crate::fees::eip1559::{FeeMarket, next_base_fee};
use crate::keys::PublicKey;
use crate::mempool::pool::{PoolEntry, in_pool_order, without_listed};
use crate::net::codec::{MessageView, message_view};
use crate::rpc::server::RpcState;
use crate::rpc::types::BlockResponse;
use crate::staking::pool::{StakingPool, delegation_rows, stake_rows};
use crate::state::state_db::{
    StateDB,
    accounts_after_all,
    receipt_matches,
    successes,
    transfer_of,
    transfer_outcome,
    transfers_of,
};
use crate::text::{decimal_text, decimal_to_string};
use crate::validator_set::manager::ValidatorSetManager;
use crate::validator_set::rotation::{rotated, swap_views, swaps_of};

verus! {

/// The gas that a transaction is counted with.
pub const GAS_PER_TRANSACTION: u64 = 21_000;

/// How many pending transactions a block takes at most.
pub const MAX_BLOCK_TRANSACTIONS: usize = 100;

/// Builds the block at `height` on `parent_hash` from `transactions`, with
/// the state root of `state_db` and the time `timestamp`.
pub fn build_block(
    height: Height,
    parent_hash: BlockHash,
    proposer: &ValidatorId,
    transactions: Vec<Transaction>,
    state_db: &StateDB,
    timestamp: u64,
) -> (block: Block)
    requires
        state_db.wf(),
    ensures
        block.header.height == height,
        block.header.timestamp == timestamp,
        block.header.parent_hash == parent_hash,
        block.header.proposer == *proposer,
        block.header.state_root@ == state_db.state_root(),
        block.header.tx_merkle_root@ == tx_merkle_root(transaction_views(transactions@)),
        block.transactions == transactions,
{
    let tx_merkle_root = Block::compute_tx_merkle_root(transactions.as_slice());
    let state_root = state_db.compute_state_root();
    Block {
        header: BlockHeader {
            height,
            timestamp,
            parent_hash,
            proposer: *proposer,
            state_root,
            tx_merkle_root,
        },
        transactions,
    }
}

/// The hash of a block for a proposal.
pub fn compute_block_hash(block: &Block) -> (hash: BlockHash)
    ensures
        hash.0@ == block_hash(block.header),
{
    block.hash()
}

/// The text that the signature of a proposal covers: it binds height, round
/// and block hash.
pub open spec fn proposal_text(height: Height, round: Round, hash: BlockHash) -> Seq<char> {
    "propose:"@ + decimal_text(height.0 as nat) + ":"@ + decimal_text(round.0 as nat) + ":"@
        + hex_text(hash.0@)
}

/// Signs a proposal for a block. The proposer is the public key of the
/// signing key, and the proposal carries no valid round.
pub fn sign_proposal(height: Height, round: Round, block_hash: BlockHash, signing_key: &[u8; 32]) -> (
    proposal: Proposal)
    ensures
        proposal.height == height,
        proposal.round == round,
        proposal.block_hash == block_hash,
        proposal.proposer.0@ == ed25519_public_key(signing_key@),
        proposal.signature@ == ed25519_signature(
            signing_key@,
            encode_utf8(proposal_text(height, round, block_hash)),
        ),
        ed25519_verifies(
            proposal.proposer.0@,
            encode_utf8(proposal_text(height, round, block_hash)),
            proposal.signature@,
        ),
        proposal.valid_round is None,
{
    let proposer = ValidatorId(ed25519_public_from_secret(signing_key));
    let mut message = String::from_str("propose:");
    message.append(decimal_to_string(height.0).as_str());
    message.append(":");
    message.append(decimal_to_string(round.0 as u64).as_str());
    message.append(":");
    message.append(hex_encode(block_hash.0.as_slice()).as_str());
    let signature = ed25519_sign(signing_key, message.as_str().as_bytes());
    Proposal { height, round, block_hash, proposer, signature, valid_round: None }
}

/// Signs a prevote or a precommit.
pub fn sign_vote(
    vote_type: VoteType,
    height: Height,
    round: Round,
    block_hash: Option<BlockHash>,
    signing_key: &[u8; 32],
) -> (vote: Vote)
    ensures
        vote.vote_type == vote_type,
        vote.height == height,
        vote.round == round,
        vote.block_hash == block_hash,
        vote.validator.0@ == ed25519_public_key(signing_key@),
        vote.signature@ == ed25519_signature(
            signing_key@,
            vote_sign_bytes(vote_type, height, round, block_hash),
        ),
        vote_signed(vote),
{
    Vote::new(vote_type, height, round, block_hash, signing_key)
}

/// Whether `msg` is what a node with the signing key `key` proposes for
/// `height` and `round`: a block on `parent_hash` with the time
/// `timestamp`, the state root `state_root` and up to a hundred of the
/// pending transactions `pool`, in the order of the mempool; and the
/// proposal for the hash of that block, without a valid round, signed with
/// the key.
pub open spec fn is_own_proposal(
    msg: ConsensusMessage,
    key: Seq<u8>,
    height: Height,
    round: Round,
    parent_hash: BlockHash,
    state_root: Seq<u8>,
    pool: Seq<PoolEntry>,
    timestamp: u64,
) -> bool {
    msg matches ConsensusMessage::ProposeBlock { proposal, block: Some(block) } && {
        &&& block.header.height == height
        &&& block.header.timestamp == timestamp
        &&& block.header.parent_hash == parent_hash
        &&& block.header.proposer.0@ == ed25519_public_key(key)
        &&& block.header.state_root@ == state_root
        &&& block.header.tx_merkle_root@ == tx_merkle_root(block@.transactions)
        &&& block.transactions@.len() <= 100
        &&& exists|order: Seq<int>|
            {
                &&& order.len() == pool.len()
                &&& in_pool_order(pool, order)
                &&& forall|i: int|
                    0 <= i < block.transactions@.len() ==> (#[trigger] block.transactions@[i])@
                        == pool[order[i]].pending.tx@
            }
        &&& proposal.height == height
        &&& proposal.round == round
        &&& proposal.block_hash.0@ == block_hash(block.header)
        &&& proposal.proposer == block.header.proposer
        &&& proposal.valid_round is None
        &&& proposal.signature@ == ed25519_signature(
            key,
            encode_utf8(proposal_text(height, round, proposal.block_hash)),
        )
        &&& ed25519_verifies(
            proposal.proposer.0@,
            encode_utf8(proposal_text(height, round, proposal.block_hash)),
            proposal.signature@,
        )
    }
}

/// Proposes a block: up to a hundred pending transactions, in the order of
/// the mempool, make a block on `parent_hash`; the proposal for it is signed
/// with the node's key and handed to the node's own state machine, which
/// caches the block. What comes back is the message to broadcast.
pub fn propose_block(
    bft: &mut BftStateMachine,
    signing_key: &[u8; 32],
    height: Height,
    round: Round,
    parent_hash: BlockHash,
    rpc_state: &RpcState,
    timestamp: u64,
) -> (msg: ConsensusMessage)
    requires
        rpc_state.state_db.wf(),
    ensures
        is_own_proposal(
            msg,
            signing_key@,
            height,
            round,
            parent_hash,
            rpc_state.state_db.state_root(),
            rpc_state.mempool.entries(),
            timestamp,
        ),
        msg matches ConsensusMessage::ProposeBlock { proposal, block: Some(block) } && {
            &&& final(bft).same_setup(*old(bft))
            &&& final(bft).round == old(bft).round
            &&& final(bft).locked_value == old(bft).locked_value
            &&& final(bft).locked_round == old(bft).locked_round
            &&& final(bft).valid_value == old(bft).valid_value
            &&& final(bft).valid_round == old(bft).valid_round
            &&& (old(bft).wf() ==> final(bft).wf())
            &&& if old(bft).admits_proposal(proposal, Some(&block)) {
                &&& final(bft).step == RoundStep::Prevote
                &&& final(bft).round_state.proposal == Some(proposal.block_hash)
                &&& final(bft).proposed_blocks.cached(proposal.block_hash) == Some(block@)
            } else {
                &&& final(bft).step == old(bft).step
                &&& final(bft).round_state.proposal == old(bft).round_state.proposal
                &&& final(bft).proposed_blocks == old(bft).proposed_blocks
            }
        },
{
    let txs = rpc_state.mempool.get_pending_ordered(MAX_BLOCK_TRANSACTIONS);
    let proposer = ValidatorId(ed25519_public_from_secret(signing_key));
    let block = build_block(height, parent_hash, &proposer, txs, &rpc_state.state_db, timestamp);
    let hash = compute_block_hash(&block);
    let proposal = sign_proposal(height, round, hash, signing_key);
    proof {
        assert(proposal.proposer.0 =~= proposer.0);
    }
    bft.on_proposal(&proposal, Some(&block));
    ConsensusMessage::ProposeBlock { proposal, block: Some(block) }
}

/// A timeout to wait for.
#[derive(Debug, Clone, Copy, PartialEq, Eq, Structural)]
pub struct Timer {
    pub event: TimeoutEvent,
    /// After how many milliseconds the event is due.
    pub duration_ms: u64,
}

/// What is to be done with the outputs of the state machine.
#[derive(Debug)]
pub struct Outputs {
    /// The messages to broadcast.
    pub to_broadcast: Vec<ConsensusMessage>,
    /// The timeouts to schedule.
    pub timers: Vec<Timer>,
}

/// The timeout of a step in a round, at most the largest 64-bit number.
pub open spec fn capped_timeout(config: TimeoutConfig, step: TimeoutStep, round: Round) -> u64 {
    if config.timeout(step, round) <= u64::MAX {
        config.timeout(step, round) as u64
    } else {
        u64::MAX
    }
}

/// The vote that a node with the signing key `key` casts: it carries the
/// public key of `key` and is signed with it.
pub open spec fn own_vote_view(
    vote_type: VoteType,
    height: Height,
    round: Round,
    block_hash: Option<BlockHash>,
    key: Seq<u8>,
) -> MessageView {
    MessageView::CastVote(
        crate::net::codec::VoteView {
            vote_type,
            height: height.0,
            round: round.0,
            block_hash: match block_hash {
                Some(hash) => Some(hash.0@),
                None => None,
            },
            validator: ed25519_public_key(key),
            signature: ed25519_signature(key, vote_sign_bytes(vote_type, height, round, block_hash)),
        },
    )
}

/// The vote that a node with the signing key `key` casts for a template of
/// the state machine.
pub open spec fn signed_vote_view(template: Vote, key: Seq<u8>) -> MessageView {
    own_vote_view(
        template.vote_type,
        template.height,
        template.round,
        template.block_hash,
        key,
    )
}

/// What is broadcast for an output of the state machine: a vote is signed
/// with the node's key, and dropped by a node without a key; commits and
/// proposals go out as they are; timeouts are not broadcast.
pub open spec fn broadcast_for(msg: ConsensusMessage, key: Option<Seq<u8>>) -> Option<MessageView> {
    match msg {
        ConsensusMessage::CastVote(template) => match key {
            Some(k) => Some(signed_vote_view(template, k)),
            None => None,
        },
        ConsensusMessage::ScheduleTimeout(event) => None,
        _ => Some(message_view(msg)),
    }
}

/// The broadcasts for the first `n` outputs.
pub open spec fn broadcasts_upto(msgs: Seq<ConsensusMessage>, key: Option<Seq<u8>>, n: int) -> Seq<
    MessageView,
>
    decreases n,
{
    if n <= 0 {
        Seq::<MessageView>::empty()
    } else {
        let before = broadcasts_upto(msgs, key, n - 1);
        match broadcast_for(msgs[n - 1], key) {
            Some(view) => before.push(view),
            None => before,
        }
    }
}

/// The timers for the first `n` outputs: one for each timeout to schedule.
pub open spec fn timers_upto(msgs: Seq<ConsensusMessage>, config: TimeoutConfig, n: int) -> Seq<
    Timer,
>
    decreases n,
{
    if n <= 0 {
        Seq::<Timer>::empty()
    } else {
        let before = timers_upto(msgs, config, n - 1);
        match msgs[n - 1] {
            ConsensusMessage::ScheduleTimeout(event) => before.push(
                Timer { event, duration_ms: capped_timeout(config, event.step, event.round) },
            ),
            _ => before,
        }
    }
}

/// The views of a sequence of messages.
pub open spec fn message_views(msgs: Seq<ConsensusMessage>) -> Seq<MessageView> {
    Seq::new(msgs.len(), |i: int| message_view(msgs[i]))
}

fn timeout_duration(config: &TimeoutConfig, step: TimeoutStep, round: Round) -> (ms: u64)
    ensures
        ms == capped_timeout(*config, step, round),
{
    let base: u128 = (match step {
        TimeoutStep::Propose => config.propose_ms,
        TimeoutStep::Prevote => config.prevote_ms,
        TimeoutStep::Precommit => config.precommit_ms,
    }) as u128;
    assert((config.increment_ms as u128) * (round.0 as u128) <= 0xffff_ffff_ffff_ffff * 0xffff_ffff)
        by (nonlinear_arith)
        requires
            config.increment_ms <= 0xffff_ffff_ffff_ffff,
            round.0 <= 0xffff_ffff,
    ;
    let total: u128 = base + (config.increment_ms as u128) * (round.0 as u128);
    if total > u64::MAX as u128 {
        u64::MAX
    } else {
        total as u64
    }
}

/// Turns the outputs of the state machine into what is to be broadcast and
/// what is to be scheduled. The votes of the state machine are templates:
/// they are replaced by votes that are signed with the node's key.
pub fn process_bft_output(
    msgs: Vec<ConsensusMessage>,
    signing_key: Option<&[u8; 32]>,
    timeout_config: &TimeoutConfig,
) -> (out: Outputs)
    ensures
        message_views(out.to_broadcast@) == broadcasts_upto(
            msgs@,
            match signing_key {
                Some(k) => Some(k@),
                None => None,
            },
            msgs@.len() as int,
        ),
        out.timers@ == timers_upto(msgs@, *timeout_config, msgs@.len() as int),
{
    let ghost all = msgs@;
    let ghost key: Option<Seq<u8>> = match signing_key {
        Some(k) => Some(k@),
        None => None,
    };
    let mut rest = msgs;
    let mut to_broadcast: Vec<ConsensusMessage> = Vec::new();
    let mut timers: Vec<Timer> = Vec::new();
    let ghost mut done: int = 0;
    proof {
        assert(message_views(to_broadcast@) =~= broadcasts_upto(all, key, 0));
        assert(rest@ =~= all.subrange(0, all.len() as int));
    }
    while rest.len() > 0
        invariant
            0 <= done <= all.len(),
            rest@ == all.subrange(done, all.len() as int),
            key == (match signing_key {
                Some(k) => Some(k@),
                None => None,
            }),
            message_views(to_broadcast@) == broadcasts_upto(all, key, done),
            timers@ == timers_upto(all, *timeout_config, done),
        decreases rest@.len(),
    {
        let ghost before = rest@;
        let msg = rest.remove(0);
        proof {
            assert(msg == all[done]);
            assert(rest@ =~= all.subrange(done + 1, all.len() as int));
        }
        let ghost sent = to_broadcast@;
        match msg {
            ConsensusMessage::CastVote(template) => {
                match signing_key {
                    Some(sk) => {
                        let signed = sign_vote(
                            template.vote_type,
                            template.height,
                            template.round,
                            template.block_hash,
                            sk,
                        );
                        to_broadcast.push(ConsensusMessage::CastVote(signed));
                        proof {
                            assert(message_view(ConsensusMessage::CastVote(signed))
                                == signed_vote_view(template, sk@));
                            assert(message_views(to_broadcast@) =~= message_views(sent).push(
                                signed_vote_view(template, sk@),
                            ));
                        }
                    },
                    None => {},
                }
            },
            ConsensusMessage::ScheduleTimeout(event) => {
                let duration_ms = timeout_duration(timeout_config, event.step, event.round);
                timers.push(Timer { event, duration_ms });
            },
            other => {
                to_broadcast.push(other);
                proof {
                    assert(message_views(to_broadcast@) =~= message_views(sent).push(
                        message_view(msg),
                    ));
                }
            },
        }
        proof {
            done = done + 1;
        }
    }
    Outputs { to_broadcast, timers }
}

/// What a node holds besides the consensus core.
#[derive(Debug, Clone)]
pub struct NodeState {
    /// What the RPC interface reads: height, base fee, mempool, accounts
    /// and committed blocks.
    pub rpc: RpcState,
    pub fee_market: FeeMarket,
    /// The hash of the last committed block.
    pub last_block_hash: BlockHash,
    pub staking_pool: StakingPool,
    pub validator_set: ValidatorSetManager,
    /// The number of blocks of an epoch.
    pub epoch_length: u64,
}

/// What applying a committed block did.
#[derive(Debug, Clone)]
pub struct CommitSummary {
    /// The transactions that were applied.
    pub transactions: Vec<Transaction>,
    /// How many of them succeeded.
    pub success: usize,
    /// How many of them failed.
    pub failed: usize,
    /// The swaps of the rotation, at the boundary of an epoch.
    pub swaps: Option<Vec<(PublicKey, PublicKey)>>,
    /// The staking rewards of the epoch, at the boundary of an epoch.
    pub rewards: Vec<(PublicKey, u64)>,
}

/// Whether `height` ends an epoch of `epoch_length` blocks.
pub open spec fn ends_epoch(height: u64, epoch_length: u64) -> bool {
    epoch_length > 0 && height > 0 && height % epoch_length == 0
}

/// The gas that `count` transactions are counted with, at most the largest
/// 64-bit number.
pub open spec fn gas_of(count: nat) -> u64 {
    if count * 21_000 <= u64::MAX {
        (count * 21_000) as u64
    } else {
        u64::MAX
    }
}

/// The hashes of a list of transactions.
pub open spec fn hashes_of(txs: Seq<Transaction>, hashes: Seq<[u8; 32]>) -> bool {
    &&& hashes.len() == txs.len()
    &&& forall|i: int| 0 <= i < txs.len() ==> (#[trigger] hashes[i])@ == transaction_hash(txs[i]@)
}

impl NodeState {
    pub open spec fn wf(self) -> bool {
        &&& self.rpc.state_db.wf()
        &&& self.fee_market.wf()
        &&& self.staking_pool.wf()
        &&& self.validator_set.wf()
    }
}

/// Applies a committed block. The transactions of the block, or, where the
/// block is not at hand, up to a hundred pending transactions in the order
/// of the mempool, are applied to the accounts and leave the mempool; the
/// base fee follows the gas of the block; height, base fee and the block
/// are recorded for the RPC interface; and where the height ends an epoch,
/// the validator set is rotated and the staking rewards are computed.
pub fn apply_commit(
    node: &mut NodeState,
    height: Height,
    block_hash: BlockHash,
    committed_block: Option<&Block>,
    timestamp: u64,
) -> (summary: CommitSummary)
    requires
        old(node).wf(),
        old(node).fee_market.spec_config().target_gas_per_block > 0,
        ends_epoch(height.0, old(node).epoch_length) ==> old(
            node,
        ).validator_set.state().current_epoch < u64::MAX,
    ensures
        final(node).wf(),
        final(node).epoch_length == old(node).epoch_length,
        final(node).staking_pool == old(node).staking_pool,
        committed_block matches Some(block) ==> transaction_views(summary.transactions@)
            == block@.transactions,
        committed_block is None ==> summary.transactions@.len() <= 100 && exists|
            order: Seq<int>,
        |
            {
                &&& order.len() == old(node).rpc.mempool.entries().len()
                &&& in_pool_order(old(node).rpc.mempool.entries(), order)
                &&& forall|i: int|
                    0 <= i < summary.transactions@.len() ==> (#[trigger] summary.transactions@[i])@
                        == old(node).rpc.mempool.entries()[order[i]].pending.tx@
            },
        final(node).rpc.state_db@ == accounts_after_all(
            old(node).rpc.state_db@,
            transfers_of(transaction_views(summary.transactions@)),
        ),
        summary.success == successes(
            old(node).rpc.state_db@,
            transfers_of(transaction_views(summary.transactions@)),
        ),
        summary.success + summary.failed == summary.transactions@.len(),
        exists|hashes: Seq<[u8; 32]>|
            hashes_of(summary.transactions@, hashes) && final(node).rpc.mempool.entries()
                == without_listed(
                old(node).rpc.mempool.entries(),
                hashes,
                old(node).rpc.mempool.entries().len() as int,
            ),
        final(node).fee_market.spec_config() == old(node).fee_market.spec_config(),
        final(node).fee_market.base_fee() == next_base_fee(
            old(node).fee_market.spec_config(),
            old(node).fee_market.base_fee(),
            gas_of(summary.transactions@.len()),
        ),
        final(node).rpc.current_height == height.0,
        final(node).rpc.base_fee == final(node).fee_market.base_fee(),
        final(node).rpc.validator_count == old(node).rpc.validator_count,
        final(node).rpc.block_store@.len() == old(node).rpc.block_store@.len() + 1,
        final(node).rpc.block_store@.drop_last() == old(node).rpc.block_store@,
        ({
            let stored = final(node).rpc.block_store@.last();
            &&& stored.height == height.0
            &&& stored.timestamp == timestamp
            &&& stored.parent_hash@ == hex_text(old(node).last_block_hash.0@)
            &&& stored.proposer@ == (match committed_block {
                Some(block) => hex_text(block.header.proposer.0@),
                None => Seq::<char>::empty(),
            })
            &&& stored.tx_count == summary.transactions@.len()
            &&& stored.block_hash@ == hex_text(block_hash.0@)
        }),
        final(node).last_block_hash == block_hash,
        if ends_epoch(height.0, old(node).epoch_length) {
            &&& summary.swaps matches Some(swaps)
            &&& swap_views(swaps@) == swaps_of(old(node).validator_set.members(old(node).staking_pool))
            &&& final(node).validator_set.members(old(node).staking_pool) == rotated(
                old(node).validator_set.members(old(node).staking_pool),
                old(node).validator_set.state().config.active_set_cap as nat,
            )
            &&& final(node).validator_set.state().current_epoch == old(
                node,
            ).validator_set.state().current_epoch + 1
            &&& summary.rewards@ == stake_rows(
                old(node).staking_pool.stakes(),
                old(node).staking_pool.stakes().len() as int,
            ) + delegation_rows(
                old(node).staking_pool.delegations(),
                old(node).staking_pool.delegations().len() as int,
            )
        } else {
            &&& summary.swaps is None
            &&& summary.rewards@.len() == 0
            &&& final(node).validator_set == old(node).validator_set
        },
{
    let (transactions, proposer_hex) = match committed_block {
        Some(block) => {
            let copy = block.clone();
            (copy.transactions, hex_encode(block.header.proposer.0.as_slice()))
        },
        None => (node.rpc.mempool.get_pending_ordered(MAX_BLOCK_TRANSACTIONS), String::new()),
    };
    let ghost start = node.rpc.state_db@;
    let ghost all = transfers_of(transaction_views(transactions@));
    let receipts = node.rpc.state_db.apply_block(transactions.as_slice());
    let mut success: usize = 0;
    let mut i: usize = 0;
    proof {
        assert(all.subrange(0, 0) =~= Seq::empty());
    }
    while i < receipts.len()
        invariant
            i <= receipts@.len(),
            receipts@.len() == transactions@.len(),
            all == transfers_of(transaction_views(transactions@)),
            success <= i,
            success == successes(start, all.subrange(0, i as int)),
            forall|j: int|
                0 <= j < transactions@.len() ==> receipt_matches(
                    #[trigger] receipts@[j],
                    transactions@[j]@,
                    transfer_outcome(
                        accounts_after_all(start, all.subrange(0, j)),
                        transfer_of(transactions@[j]@),
                    ),
                ),
        decreases receipts@.len() - i,
    {
        proof {
            assert(all.subrange(0, i + 1).drop_last() =~= all.subrange(0, i as int));
            assert(all.subrange(0, i + 1).last() == transfer_of(transactions@[i as int]@));
            assert(receipt_matches(
                receipts@[i as int],
                transactions@[i as int]@,
                transfer_outcome(
                    accounts_after_all(start, all.subrange(0, i as int)),
                    transfer_of(transactions@[i as int]@),
                ),
            ));
        }
        if receipts[i].success {
            success += 1;
        }
        i += 1;
    }
    proof {
        assert(all.subrange(0, i as int) =~= all);
    }
    let failed = receipts.len() - success;
    let mut hashes: Vec<[u8; 32]> = Vec::new();
    let mut k: usize = 0;
    while k < transactions.len()
        invariant
            k <= transactions@.len(),
            hashes@.len() == k,
            forall|j: int| 0 <= j < k ==> (#[trigger] hashes@[j])@ == transaction_hash(
                transactions@[j]@,
            ),
        decreases transactions@.len() - k,
    {
        hashes.push(transactions[k].hash());
        k += 1;
    }
    let ghost pool_before = node.rpc.mempool.entries();
    node.rpc.mempool.remove_committed(hashes.as_slice());
    let ghost pool_after = node.rpc.mempool.entries();
    let gas_used = match (transactions.len() as u64).checked_mul(GAS_PER_TRANSACTION) {
        Some(gas) => gas,
        None => u64::MAX,
    };
    node.fee_market.update_base_fee(gas_used);
    node.rpc.current_height = height.0;
    node.rpc.base_fee = node.fee_market.current_base_fee();
    let ghost stored_before = node.rpc.block_store@;
    node.rpc.block_store.push(
        BlockResponse {
            height: height.0,
            timestamp,
            parent_hash: hex_encode(node.last_block_hash.0.as_slice()),
            proposer: proposer_hex,
            tx_count: transactions.len(),
            block_hash: hex_encode(block_hash.0.as_slice()),
        },
    );
    proof {
        assert(node.rpc.block_store@.drop_last() =~= stored_before);
    }
    node.last_block_hash = block_hash;
    let mut swaps: Option<Vec<(PublicKey, PublicKey)>> = None;
    let mut rewards: Vec<(PublicKey, u64)> = Vec::new();
    if node.epoch_length > 0 && height.0 > 0 && height.0 % node.epoch_length == 0 {
        swaps = Some(node.validator_set.epoch_rotation(&node.staking_pool));
        rewards = node.staking_pool.distribute_epoch_rewards();
    }
    proof {
        assert(hashes_of(transactions@, hashes@));
        assert(pool_before == old(node).rpc.mempool.entries());
        assert(node.rpc.mempool.entries() == pool_after);
        assert(pool_after == without_listed(pool_before, hashes@, pool_before.len() as int));
    }
    CommitSummary { transactions, success, failed, swaps, rewards }
}

} // verus!
