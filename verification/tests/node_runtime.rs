use ed25519_dalek::{Signature, SigningKey, Verifier, VerifyingKey};
use trv1::bft::block::{Block, Transaction};
use trv1::bft::state_machine::BftStateMachine;
use trv1::bft::types::{
    BlockHash, ConsensusMessage, Height, Round, TimeoutConfig, TimeoutEvent, TimeoutStep,
    ValidatorId, Vote, VoteType,
};
use trv1::fees::eip1559::FeeMarket;
use trv1::fees::types::FeeConfig;
use trv1::node::runtime::{
    apply_commit, build_block, compute_block_hash, process_bft_output, propose_block,
    sign_proposal, sign_vote, NodeState, Timer, GAS_PER_TRANSACTION, MAX_BLOCK_TRANSACTIONS,
};
use trv1::rpc::server::RpcState;
use trv1::staking::pool::StakingPool;
use trv1::staking::tiers::LockTier;
use trv1::state::accounts::AccountState;
use trv1::state::state_db::StateDB;
use trv1::validator_set::manager::ValidatorSetManager;
use trv1::validator_set::types::{ValidatorSetConfig, ValidatorStatus};

fn secret(n: u8) -> [u8; 32] {
    [n; 32]
}

fn public(n: u8) -> [u8; 32] {
    SigningKey::from_bytes(&secret(n)).verifying_key().to_bytes()
}

fn transfer(from: u8, to: [u8; 32], amount: u64, nonce: u64) -> Transaction {
    let mut tx = Transaction {
        from: public(from),
        to,
        amount,
        nonce,
        signature: vec![],
        data: vec![],
    };
    tx.sign(&secret(from));
    tx
}

fn node_state(target_gas: u64, base_fee: u64, epoch_length: u64) -> NodeState {
    let config = FeeConfig { target_gas_per_block: target_gas, ..FeeConfig::default() };
    NodeState {
        rpc: RpcState::new_mock(),
        fee_market: FeeMarket::new(config, base_fee).unwrap(),
        last_block_hash: BlockHash([0u8; 32]),
        staking_pool: StakingPool::new(),
        validator_set: ValidatorSetManager::new(),
        epoch_length,
    }
}

#[test]
fn constants_of_a_block() {
    assert_eq!(GAS_PER_TRANSACTION, 21_000);
    assert_eq!(MAX_BLOCK_TRANSACTIONS, 100);
}

#[test]
fn build_block_fills_the_header() {
    let mut db = StateDB::new();
    db.set_account(public(1), AccountState::new(50));
    let txs = vec![transfer(1, [9u8; 32], 5, 0), transfer(1, [9u8; 32], 6, 1)];
    let proposer = ValidatorId(public(2));
    let block = build_block(Height(7), BlockHash([3u8; 32]), &proposer, txs.clone(), &db, 1_700_000_000);
    assert_eq!(block.header.height, Height(7));
    assert_eq!(block.header.timestamp, 1_700_000_000);
    assert_eq!(block.header.parent_hash, BlockHash([3u8; 32]));
    assert_eq!(block.header.proposer, proposer);
    assert_eq!(block.header.state_root, db.compute_state_root());
    assert_eq!(block.header.tx_merkle_root, Block::compute_tx_merkle_root(&txs));
    assert_eq!(block.transactions, txs);
    assert_eq!(compute_block_hash(&block), block.hash());
}

#[test]
fn build_block_without_transactions_has_a_zero_merkle_root() {
    let db = StateDB::new();
    let block = build_block(Height(0), BlockHash([0u8; 32]), &ValidatorId(public(1)), vec![], &db, 0);
    assert_eq!(block.header.tx_merkle_root, [0u8; 32]);
    assert!(block.transactions.is_empty());
}

#[test]
fn proposal_signature_binds_height_round_and_hash() {
    let hash = BlockHash([0xabu8; 32]);
    let proposal = sign_proposal(Height(12), Round(3), hash, &secret(5));
    assert_eq!(proposal.height, Height(12));
    assert_eq!(proposal.round, Round(3));
    assert_eq!(proposal.block_hash, hash);
    assert_eq!(proposal.proposer, ValidatorId(public(5)));
    assert_eq!(proposal.valid_round, None);
    let message = format!("propose:12:3:{}", "ab".repeat(32));
    let key = VerifyingKey::from_bytes(&public(5)).unwrap();
    let signature = Signature::from_bytes(&proposal.signature);
    assert!(key.verify(message.as_bytes(), &signature).is_ok());
    let other = format!("propose:12:4:{}", "ab".repeat(32));
    assert!(key.verify(other.as_bytes(), &signature).is_err());
}

#[test]
fn signed_vote_verifies() {
    let vote = sign_vote(VoteType::Precommit, Height(2), Round(1), Some(BlockHash([8u8; 32])), &secret(6));
    assert_eq!(vote.vote_type, VoteType::Precommit);
    assert_eq!(vote.height, Height(2));
    assert_eq!(vote.round, Round(1));
    assert_eq!(vote.block_hash, Some(BlockHash([8u8; 32])));
    assert_eq!(vote.validator, ValidatorId(public(6)));
    assert!(vote.verify());
    let mut forged = vote;
    forged.round = Round(2);
    assert!(!forged.verify());
    let nil = sign_vote(VoteType::Prevote, Height(2), Round(1), None, &secret(6));
    assert!(nil.verify());
    assert_ne!(nil.signature, vote.signature);
}

fn template(vote_type: VoteType, hash: Option<BlockHash>) -> ConsensusMessage {
    ConsensusMessage::CastVote(Vote {
        vote_type,
        height: Height(4),
        round: Round(2),
        block_hash: hash,
        validator: ValidatorId([0u8; 32]),
        signature: [0u8; 64],
    })
}

#[test]
fn outputs_are_signed_and_scheduled() {
    let outputs = vec![
        template(VoteType::Prevote, Some(BlockHash([1u8; 32]))),
        ConsensusMessage::ScheduleTimeout(TimeoutEvent {
            height: Height(4),
            round: Round(2),
            step: TimeoutStep::Prevote,
        }),
        ConsensusMessage::CommitBlock { height: Height(4), block_hash: BlockHash([1u8; 32]) },
        template(VoteType::Precommit, None),
        ConsensusMessage::ScheduleTimeout(TimeoutEvent {
            height: Height(4),
            round: Round(3),
            step: TimeoutStep::Propose,
        }),
    ];
    let key = secret(7);
    let out = process_bft_output(outputs, Some(&key), &TimeoutConfig::default());
    assert_eq!(out.to_broadcast.len(), 3);
    match &out.to_broadcast[0] {
        ConsensusMessage::CastVote(vote) => {
            assert_eq!(
                *vote,
                sign_vote(VoteType::Prevote, Height(4), Round(2), Some(BlockHash([1u8; 32])), &key)
            );
            assert!(vote.verify());
        }
        _ => panic!("a vote was expected"),
    }
    match &out.to_broadcast[1] {
        ConsensusMessage::CommitBlock { height, block_hash } => {
            assert_eq!(*height, Height(4));
            assert_eq!(*block_hash, BlockHash([1u8; 32]));
        }
        _ => panic!("a commit was expected"),
    }
    match &out.to_broadcast[2] {
        ConsensusMessage::CastVote(vote) => {
            assert_eq!(*vote, sign_vote(VoteType::Precommit, Height(4), Round(2), None, &key));
        }
        _ => panic!("a vote was expected"),
    }
    assert_eq!(
        out.timers,
        vec![
            Timer {
                event: TimeoutEvent { height: Height(4), round: Round(2), step: TimeoutStep::Prevote },
                duration_ms: 1000 + 500 * 2,
            },
            Timer {
                event: TimeoutEvent { height: Height(4), round: Round(3), step: TimeoutStep::Propose },
                duration_ms: 3000 + 500 * 3,
            },
        ]
    );
}

#[test]
fn an_observer_drops_the_votes() {
    let outputs = vec![
        template(VoteType::Prevote, None),
        ConsensusMessage::CommitBlock { height: Height(4), block_hash: BlockHash([1u8; 32]) },
    ];
    let out = process_bft_output(outputs, None, &TimeoutConfig::default());
    assert_eq!(out.to_broadcast.len(), 1);
    assert!(matches!(out.to_broadcast[0], ConsensusMessage::CommitBlock { .. }));
    assert!(out.timers.is_empty());
    let nothing = process_bft_output(vec![], None, &TimeoutConfig::default());
    assert!(nothing.to_broadcast.is_empty());
    assert!(nothing.timers.is_empty());
}

#[test]
fn timeouts_are_capped() {
    let config = TimeoutConfig {
        propose_ms: u64::MAX - 10,
        prevote_ms: 5,
        precommit_ms: 7,
        increment_ms: u64::MAX,
    };
    let event = |step, round| {
        ConsensusMessage::ScheduleTimeout(TimeoutEvent { height: Height(0), round: Round(round), step })
    };
    let out = process_bft_output(
        vec![
            event(TimeoutStep::Propose, 0),
            event(TimeoutStep::Propose, 1),
            event(TimeoutStep::Prevote, 0),
            event(TimeoutStep::Precommit, u32::MAX),
        ],
        None,
        &config,
    );
    let durations: Vec<u64> = out.timers.iter().map(|t| t.duration_ms).collect();
    assert_eq!(durations, vec![u64::MAX - 10, u64::MAX, 5, u64::MAX]);
}

#[test]
fn commit_applies_the_block() {
    let mut node = node_state(21_000, 1000, 100);
    node.rpc.state_db.set_account(public(1), AccountState::new(10_000));
    let txs = vec![
        transfer(1, [9u8; 32], 3_000, 0),
        transfer(1, [9u8; 32], 8_000, 1),
        transfer(2, [9u8; 32], 1, 0),
    ];
    for tx in &txs {
        node.rpc.mempool.add_transaction(tx.clone()).unwrap();
    }
    let other = transfer(3, [9u8; 32], 1, 0);
    node.rpc.mempool.add_transaction(other.clone()).unwrap();
    let proposer = ValidatorId(public(4));
    let block = build_block(Height(1), BlockHash([0u8; 32]), &proposer, txs.clone(), &node.rpc.state_db, 55);
    let hash = compute_block_hash(&block);

    let summary = apply_commit(&mut node, Height(1), hash, Some(&block), 77);

    assert_eq!(summary.transactions, txs);
    assert_eq!(summary.success, 1);
    assert_eq!(summary.failed, 2);
    assert!(summary.swaps.is_none());
    assert!(summary.rewards.is_empty());
    assert_eq!(node.rpc.state_db.get_account(&public(1)), Some(&AccountState { balance: 7_000, nonce: 1 }));
    assert_eq!(node.rpc.state_db.get_account(&[9u8; 32]), Some(&AccountState { balance: 3_000, nonce: 0 }));
    // What was committed left the mempool; the rest waits.
    assert_eq!(node.rpc.mempool.pending_count(), 1);
    assert!(node.rpc.mempool.contains(&other.hash()));
    // Three transactions use three times the target: the fee rises by an eighth of twice itself.
    assert_eq!(node.fee_market.current_base_fee(), 1000 + 1000 * 2 / 8);
    assert_eq!(node.rpc.base_fee, 1250);
    assert_eq!(node.rpc.current_height, 1);
    assert_eq!(node.last_block_hash, hash);
    assert_eq!(node.rpc.block_store.len(), 1);
    let stored = &node.rpc.block_store[0];
    assert_eq!(stored.height, 1);
    assert_eq!(stored.timestamp, 77);
    assert_eq!(stored.parent_hash, "00".repeat(32));
    assert_eq!(stored.proposer, hex::encode(public(4)));
    assert_eq!(stored.tx_count, 3);
    assert_eq!(stored.block_hash, hex::encode(hash.0));
    assert_eq!(node.validator_set.current_epoch(), 0);
}

#[test]
fn commit_without_the_block_takes_pending_transactions() {
    let mut node = node_state(15_000_000, 1000, 100);
    node.rpc.state_db.set_account(public(1), AccountState::new(10_000));
    node.last_block_hash = BlockHash([4u8; 32]);
    let tx = transfer(1, [9u8; 32], 10, 0);
    node.rpc.mempool.add_transaction(tx.clone()).unwrap();
    let summary = apply_commit(&mut node, Height(3), BlockHash([5u8; 32]), None, 9);
    assert_eq!(summary.transactions, vec![tx]);
    assert_eq!(summary.success, 1);
    assert_eq!(summary.failed, 0);
    assert_eq!(node.rpc.mempool.pending_count(), 0);
    assert_eq!(node.rpc.state_db.get_account(&[9u8; 32]).unwrap().balance, 10);
    let stored = &node.rpc.block_store[0];
    assert_eq!(stored.parent_hash, "04".repeat(32));
    assert_eq!(stored.proposer, "");
    assert_eq!(stored.tx_count, 1);
    assert_eq!(stored.block_hash, "05".repeat(32));
    assert_eq!(node.last_block_hash, BlockHash([5u8; 32]));
    // One transaction is far below the target: the fee falls by an eighth, less a little.
    assert_eq!(
        node.fee_market.current_base_fee(),
        1000 - (1000u128 * (15_000_000 - 21_000) / (15_000_000 * 8)) as u64
    );
}

#[test]
fn commit_of_an_empty_block_keeps_the_floor() {
    let mut node = node_state(15_000_000, 1, 100);
    let summary = apply_commit(&mut node, Height(0), BlockHash([1u8; 32]), None, 0);
    assert!(summary.transactions.is_empty());
    assert_eq!(node.fee_market.current_base_fee(), 1);
    assert_eq!(node.rpc.current_height, 0);
    assert_eq!(node.rpc.block_store.len(), 1);
    // Height 0 ends no epoch.
    assert!(summary.swaps.is_none());
}

#[test]
fn commit_at_the_end_of_an_epoch_rotates_and_rewards() {
    let mut node = node_state(15_000_000, 1, 10);
    node.validator_set = ValidatorSetManager::with_config(ValidatorSetConfig {
        active_set_cap: 1,
        epoch_length: 10,
        min_stake: 1,
    });
    let weak = public(1);
    let strong = public(2);
    node.validator_set.register_validator(weak, 100, 0, 0).unwrap();
    node.validator_set.register_validator(strong, 100, 0, 0).unwrap();
    node.staking_pool.stake(weak, 1_000, LockTier::NoLock).unwrap();
    node.staking_pool.stake(strong, 1_000_000, LockTier::NoLock).unwrap();
    assert!(node.validator_set.is_active(&weak));

    let summary = apply_commit(&mut node, Height(9), BlockHash([1u8; 32]), None, 0);
    assert!(summary.swaps.is_none());
    assert_eq!(node.validator_set.current_epoch(), 0);

    let summary = apply_commit(&mut node, Height(10), BlockHash([2u8; 32]), None, 0);
    assert_eq!(summary.swaps, Some(vec![(strong, weak)]));
    assert_eq!(node.validator_set.current_epoch(), 1);
    assert!(node.validator_set.is_active(&strong));
    assert_eq!(node.validator_set.get_validator(&weak).unwrap().status, ValidatorStatus::Standby);
    assert_eq!(summary.rewards, node.staking_pool.distribute_epoch_rewards());
    assert!(summary.rewards.iter().any(|row| row.0 == strong && row.1 > 0));
    assert_eq!(node.rpc.block_store.len(), 2);
}

#[test]
fn commit_without_epochs_never_rotates() {
    let mut node = node_state(15_000_000, 1, 0);
    let summary = apply_commit(&mut node, Height(10), BlockHash([2u8; 32]), None, 0);
    assert!(summary.swaps.is_none());
    assert_eq!(node.validator_set.current_epoch(), 0);
}

#[test]
fn proposing_hands_the_block_to_the_own_core() {
    let validators = vec![ValidatorId(public(1)), ValidatorId(public(2))];
    let mut bft = BftStateMachine::new(Height(0), validators, Some(0), TimeoutConfig::default());
    bft.start_round(Round(0));
    let mut rpc = RpcState::new_mock();
    rpc.state_db.set_account(public(3), AccountState::new(100));
    let tx = transfer(3, [9u8; 32], 10, 0);
    rpc.mempool.add_transaction(tx.clone()).unwrap();

    let msg = propose_block(&mut bft, &secret(1), Height(0), Round(0), BlockHash([6u8; 32]), &rpc, 123);
    match msg {
        ConsensusMessage::ProposeBlock { proposal, block: Some(block) } => {
            assert_eq!(block.header.height, Height(0));
            assert_eq!(block.header.timestamp, 123);
            assert_eq!(block.header.parent_hash, BlockHash([6u8; 32]));
            assert_eq!(block.header.proposer, ValidatorId(public(1)));
            assert_eq!(block.header.state_root, rpc.state_db.compute_state_root());
            assert_eq!(block.transactions, vec![tx]);
            assert_eq!(proposal, sign_proposal(Height(0), Round(0), block.hash(), &secret(1)));
            assert_eq!(bft.get_committed_block(&proposal.block_hash), Some(&block));
        }
        _ => panic!("a proposal with its block was expected"),
    }
    // The mempool keeps the transaction until the block is committed.
    assert_eq!(rpc.mempool.pending_count(), 1);
}
