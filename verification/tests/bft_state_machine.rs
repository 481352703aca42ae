use ed25519_dalek::{Signer, SigningKey};
use rand::rngs::OsRng;
use trv1::bft::block::{Block, BlockHeader, Transaction};
use trv1::bft::round::RoundStep;
use trv1::bft::state_machine::BftStateMachine;
use trv1::bft::types::{
    BlockHash, ConsensusMessage, Height, Proposal, Round, TimeoutConfig, TimeoutEvent,
    TimeoutStep, ValidatorId, Vote, VoteType,
};

fn make_validators(n: usize) -> (Vec<SigningKey>, Vec<ValidatorId>) {
    let keys: Vec<SigningKey> = (0..n).map(|_| SigningKey::generate(&mut OsRng)).collect();
    let ids: Vec<ValidatorId> =
        keys.iter().map(|k| ValidatorId(k.verifying_key().to_bytes())).collect();
    (keys, ids)
}

fn make_proposal(
    height: Height,
    round: Round,
    block_hash: BlockHash,
    signing_key: &SigningKey,
) -> Proposal {
    let msg = b"proposal";
    let sig = signing_key.sign(msg);
    Proposal {
        height,
        round,
        block_hash,
        proposer: ValidatorId(signing_key.verifying_key().to_bytes()),
        signature: sig.to_bytes(),
        valid_round: None,
    }
}

fn make_signed_vote(
    vote_type: VoteType,
    height: Height,
    round: Round,
    block_hash: Option<BlockHash>,
    key: &SigningKey,
) -> Vote {
    Vote::new(vote_type, height, round, block_hash, &key.to_bytes())
}

#[test]
fn test_proposer_rotation() {
    let (_keys, ids) = make_validators(4);
    let sm = BftStateMachine::new(Height(0), ids, Some(0), TimeoutConfig::default());

    assert_eq!(sm.proposer_index(Height(0), Round(0)), 0);
    assert_eq!(sm.proposer_index(Height(0), Round(1)), 1);
    assert_eq!(sm.proposer_index(Height(1), Round(0)), 1);
    assert_eq!(sm.proposer_index(Height(3), Round(3)), 2); // (3+3)%4=2
}

#[test]
fn test_start_round_schedules_timeout() {
    let (_keys, ids) = make_validators(4);
    let mut sm = BftStateMachine::new(Height(1), ids, Some(0), TimeoutConfig::default());

    let msgs = sm.start_round(Round(0));
    assert_eq!(msgs.len(), 1);
    match &msgs[0] {
        ConsensusMessage::ScheduleTimeout(te) => {
            assert_eq!(te.step, TimeoutStep::Propose);
            assert_eq!(te.round, Round(0));
        }
        _ => panic!("expected ScheduleTimeout"),
    }
    assert_eq!(sm.step, RoundStep::Propose);
}

#[test]
fn test_on_proposal_valid() {
    let (keys, ids) = make_validators(4);
    let mut sm = BftStateMachine::new(Height(0), ids, Some(1), TimeoutConfig::default());
    sm.start_round(Round(0));

    let hash = BlockHash([0xAA; 32]);
    // Proposer for height=0, round=0 is index 0
    let proposal = make_proposal(Height(0), Round(0), hash, &keys[0]);
    let msgs = sm.on_proposal(&proposal, None);

    assert_eq!(sm.step, RoundStep::Prevote);
    assert_eq!(sm.round_state.proposal, Some(hash));
    assert!(msgs.len() == 1);
    match &msgs[0] {
        ConsensusMessage::CastVote(v) => {
            assert_eq!(v.vote_type, VoteType::Prevote);
            assert_eq!(v.block_hash, Some(hash));
        }
        _ => panic!("expected CastVote prevote"),
    }
}

#[test]
fn test_on_proposal_wrong_proposer_ignored() {
    let (keys, ids) = make_validators(4);
    let mut sm = BftStateMachine::new(Height(0), ids, Some(1), TimeoutConfig::default());
    sm.start_round(Round(0));

    let hash = BlockHash([0xBB; 32]);
    // keys[1] is not the proposer for height=0, round=0
    let proposal = make_proposal(Height(0), Round(0), hash, &keys[1]);
    let msgs = sm.on_proposal(&proposal, None);

    assert!(msgs.is_empty(), "wrong proposer should be ignored");
    assert_eq!(sm.step, RoundStep::Propose);
}

#[test]
fn test_prevote_quorum_transitions_to_precommit() {
    let (keys, ids) = make_validators(4);
    let hash = BlockHash([0xCC; 32]);
    let mut sm = BftStateMachine::new(Height(0), ids, Some(0), TimeoutConfig::default());
    sm.start_round(Round(0));
    sm.step = RoundStep::Prevote;

    // Feed 3 prevotes for the block (quorum = 3 of 4)
    for key in &keys[0..3] {
        let vote = make_signed_vote(VoteType::Prevote, Height(0), Round(0), Some(hash), key);
        sm.on_prevote(&vote);
    }

    assert_eq!(sm.step, RoundStep::Precommit);
    assert_eq!(sm.locked_value, Some(hash));
    assert_eq!(sm.valid_value, Some(hash));
}

#[test]
fn test_nil_prevote_quorum_transitions_to_precommit() {
    let (keys, ids) = make_validators(4);
    let mut sm = BftStateMachine::new(Height(0), ids, Some(0), TimeoutConfig::default());
    sm.start_round(Round(0));
    sm.step = RoundStep::Prevote;

    // 3 nil prevotes
    for key in &keys[0..3] {
        let vote = make_signed_vote(VoteType::Prevote, Height(0), Round(0), None, key);
        sm.on_prevote(&vote);
    }

    assert_eq!(sm.step, RoundStep::Precommit);
    // locked_value should not change on nil
    assert_eq!(sm.locked_value, None);
}

#[test]
fn test_precommit_quorum_commits() {
    let (keys, ids) = make_validators(4);
    let hash = BlockHash([0xDD; 32]);
    let mut sm = BftStateMachine::new(Height(0), ids, Some(0), TimeoutConfig::default());
    sm.start_round(Round(0));
    sm.step = RoundStep::Precommit;

    let mut committed = false;
    for key in &keys[0..3] {
        let vote =
            make_signed_vote(VoteType::Precommit, Height(0), Round(0), Some(hash), key);
        let msgs = sm.on_precommit(&vote);
        for msg in &msgs {
            if let ConsensusMessage::CommitBlock {
                height,
                block_hash,
            } = msg
            {
                assert_eq!(*height, Height(0));
                assert_eq!(*block_hash, hash);
                committed = true;
            }
        }
    }

    assert!(committed, "should have committed the block");
    assert_eq!(sm.step, RoundStep::Commit);
}

#[test]
fn test_precommit_no_quorum_no_commit() {
    let (keys, ids) = make_validators(4);
    let hash = BlockHash([0xEE; 32]);
    let mut sm = BftStateMachine::new(Height(0), ids, Some(0), TimeoutConfig::default());
    sm.start_round(Round(0));
    sm.step = RoundStep::Precommit;

    // Only 2 of 4 precommits — not enough
    for key in &keys[0..2] {
        let vote =
            make_signed_vote(VoteType::Precommit, Height(0), Round(0), Some(hash), key);
        let msgs = sm.on_precommit(&vote);
        for msg in &msgs {
            if matches!(msg, ConsensusMessage::CommitBlock { .. }) {
                panic!("should not commit with only 2 of 4");
            }
        }
    }
    assert_ne!(sm.step, RoundStep::Commit);
}

#[test]
fn test_timeout_propose_moves_to_prevote() {
    let (_keys, ids) = make_validators(4);
    let mut sm = BftStateMachine::new(Height(1), ids, Some(0), TimeoutConfig::default());
    sm.start_round(Round(0));
    assert_eq!(sm.step, RoundStep::Propose);

    let msgs = sm.on_timeout(TimeoutEvent {
        height: Height(1),
        round: Round(0),
        step: TimeoutStep::Propose,
    });

    assert_eq!(sm.step, RoundStep::Prevote);
    // Should schedule a prevote timeout
    assert!(msgs.iter().any(|m| matches!(
        m,
        ConsensusMessage::ScheduleTimeout(TimeoutEvent {
            step: TimeoutStep::Prevote,
            ..
        })
    )));
}

#[test]
fn test_timeout_prevote_moves_to_precommit() {
    let (_keys, ids) = make_validators(4);
    let mut sm = BftStateMachine::new(Height(1), ids, Some(0), TimeoutConfig::default());
    sm.start_round(Round(0));
    sm.step = RoundStep::Prevote;

    let msgs = sm.on_timeout(TimeoutEvent {
        height: Height(1),
        round: Round(0),
        step: TimeoutStep::Prevote,
    });

    assert_eq!(sm.step, RoundStep::Precommit);
    assert!(msgs.iter().any(|m| matches!(
        m,
        ConsensusMessage::CastVote(Vote {
            vote_type: VoteType::Precommit,
            block_hash: None,
            ..
        })
    )));
}

#[test]
fn test_timeout_precommit_advances_round() {
    let (_keys, ids) = make_validators(4);
    let mut sm = BftStateMachine::new(Height(1), ids, Some(0), TimeoutConfig::default());
    sm.start_round(Round(0));
    sm.step = RoundStep::Precommit;

    let msgs = sm.on_timeout(TimeoutEvent {
        height: Height(1),
        round: Round(0),
        step: TimeoutStep::Precommit,
    });

    assert_eq!(sm.round, Round(1));
    assert_eq!(sm.step, RoundStep::Propose);
    assert!(msgs.iter().any(|m| matches!(
        m,
        ConsensusMessage::ScheduleTimeout(TimeoutEvent {
            step: TimeoutStep::Propose,
            round: Round(1),
            ..
        })
    )));
}

#[test]
fn test_advance_height_resets_state() {
    let (_keys, ids) = make_validators(4);
    let mut sm = BftStateMachine::new(Height(0), ids, Some(0), TimeoutConfig::default());
    sm.locked_value = Some(BlockHash([0xFF; 32]));
    sm.locked_round = Some(Round(2));
    sm.valid_value = Some(BlockHash([0xFF; 32]));
    sm.valid_round = Some(Round(2));

    let msgs = sm.advance_height(Height(1));

    assert_eq!(sm.height, Height(1));
    assert_eq!(sm.round, Round(0));
    assert!(sm.locked_value.is_none());
    assert!(sm.locked_round.is_none());
    assert!(sm.valid_value.is_none());
    assert!(sm.valid_round.is_none());
    assert!(!msgs.is_empty());
}

#[test]
fn test_full_happy_path() {
    // Simulate a complete consensus round: propose → prevote → precommit → commit
    let (keys, ids) = make_validators(4);
    let hash = BlockHash([0x42; 32]);
    let mut sm = BftStateMachine::new(Height(0), ids, Some(1), TimeoutConfig::default());
    sm.start_round(Round(0));

    // 1. Proposal from validator 0 (the proposer for h=0, r=0)
    let proposal = make_proposal(Height(0), Round(0), hash, &keys[0]);
    let msgs = sm.on_proposal(&proposal, None);
    assert_eq!(sm.step, RoundStep::Prevote);
    assert!(!msgs.is_empty());

    // 2. Prevotes from 3 validators
    for key in &keys[0..3] {
        let vote = make_signed_vote(VoteType::Prevote, Height(0), Round(0), Some(hash), key);
        sm.on_prevote(&vote);
    }
    assert_eq!(sm.step, RoundStep::Precommit);

    // 3. Precommits from 3 validators
    let mut committed = false;
    for key in &keys[0..3] {
        let vote =
            make_signed_vote(VoteType::Precommit, Height(0), Round(0), Some(hash), key);
        let msgs = sm.on_precommit(&vote);
        for msg in &msgs {
            if let ConsensusMessage::CommitBlock { block_hash, .. } = msg {
                assert_eq!(*block_hash, hash);
                committed = true;
            }
        }
    }
    assert!(committed);
    assert_eq!(sm.step, RoundStep::Commit);
}

#[test]
fn test_stale_timeout_ignored() {
    let (_keys, ids) = make_validators(4);
    let mut sm = BftStateMachine::new(Height(1), ids, Some(0), TimeoutConfig::default());
    sm.start_round(Round(1));

    // Timeout for old round should be ignored
    let msgs = sm.on_timeout(TimeoutEvent {
        height: Height(1),
        round: Round(0),
        step: TimeoutStep::Propose,
    });
    assert!(msgs.is_empty());
    assert_eq!(sm.round, Round(1));
}

#[test]
fn test_locking_respects_prior_lock() {
    let (keys, ids) = make_validators(4);
    let hash_a = BlockHash([0xAA; 32]);
    let mut sm = BftStateMachine::new(Height(0), ids, Some(1), TimeoutConfig::default());

    // Lock on hash_a in round 0
    sm.locked_value = Some(hash_a);
    sm.locked_round = Some(Round(0));

    // New round, different proposal
    sm.start_round(Round(1));
    let hash_b = BlockHash([0xBB; 32]);
    // Proposer for h=0,r=1 is validator index 1
    let proposal = make_proposal(Height(0), Round(1), hash_b, &keys[1]);
    let msgs = sm.on_proposal(&proposal, None);

    // Should prevote nil because we're locked on hash_a and proposal has no valid_round
    assert!(!msgs.is_empty());
    match &msgs[0] {
        ConsensusMessage::CastVote(v) => {
            assert_eq!(v.vote_type, VoteType::Prevote);
            assert_eq!(v.block_hash, None, "should prevote nil when locked on different block");
        }
        _ => panic!("expected prevote"),
    }
}

#[test]
fn test_split_vote_schedules_prevote_timeout() {
    let (keys, ids) = make_validators(4);
    let hash_a = BlockHash([0xAA; 32]);
    let hash_b = BlockHash([0xBB; 32]);
    let mut sm = BftStateMachine::new(Height(0), ids, Some(0), TimeoutConfig::default());
    sm.start_round(Round(0));
    sm.step = RoundStep::Prevote;

    // 2 vote A, 1 vote B, 1 vote nil → 4 total = 2/3+any but no quorum for anything
    let v1 = make_signed_vote(VoteType::Prevote, Height(0), Round(0), Some(hash_a), &keys[0]);
    let v2 = make_signed_vote(VoteType::Prevote, Height(0), Round(0), Some(hash_a), &keys[1]);
    let v3 = make_signed_vote(VoteType::Prevote, Height(0), Round(0), Some(hash_b), &keys[2]);
    let v4 = make_signed_vote(VoteType::Prevote, Height(0), Round(0), None, &keys[3]);

    sm.on_prevote(&v1);
    sm.on_prevote(&v2);
    sm.on_prevote(&v3);
    let msgs = sm.on_prevote(&v4);

    // Should still be in Prevote (no quorum for any single value)
    // but should schedule a prevote timeout since 2/3+ have voted
    assert!(msgs.iter().any(|m| matches!(
        m,
        ConsensusMessage::ScheduleTimeout(TimeoutEvent {
            step: TimeoutStep::Prevote,
            ..
        })
    )));
}

#[test]
fn test_on_proposal_with_block_caches_it() {
    let (keys, ids) = make_validators(4);
    let mut sm = BftStateMachine::new(Height(0), ids, Some(1), TimeoutConfig::default());
    sm.start_round(Round(0));

    let proposer = ValidatorId(keys[0].verifying_key().to_bytes());
    let txs = vec![Transaction {
        from: [1u8; 32],
        to: [2u8; 32],
        amount: 100,
        nonce: 0,
        signature: vec![0u8; 64],
        data: vec![],
    }];
    let block = Block {
        header: BlockHeader {
            height: Height(0),
            timestamp: 1700000000,
            parent_hash: BlockHash::default(),
            proposer: proposer.clone(),
            state_root: [0u8; 32],
            tx_merkle_root: Block::compute_tx_merkle_root(&txs),
        },
        transactions: txs,
    };
    let hash = block.hash();
    let proposal = make_proposal(Height(0), Round(0), hash, &keys[0]);

    let msgs = sm.on_proposal(&proposal, Some(&block));
    assert!(!msgs.is_empty(), "should have emitted a prevote");
    assert_eq!(sm.round_state.proposal, Some(hash));

    // Block should be cached
    let cached = sm.get_committed_block(&hash);
    assert!(cached.is_some(), "block should be cached after proposal");
    assert_eq!(cached.unwrap().hash(), hash);
}

#[test]
fn test_on_proposal_with_mismatched_block_rejected() {
    let (keys, ids) = make_validators(4);
    let mut sm = BftStateMachine::new(Height(0), ids, Some(1), TimeoutConfig::default());
    sm.start_round(Round(0));

    let proposer = ValidatorId(keys[0].verifying_key().to_bytes());
    let block = Block {
        header: BlockHeader {
            height: Height(0),
            timestamp: 1700000000,
            parent_hash: BlockHash::default(),
            proposer: proposer.clone(),
            state_root: [0u8; 32],
            tx_merkle_root: [0u8; 32],
        },
        transactions: vec![],
    };

    // Proposal claims a different block hash
    let wrong_hash = BlockHash([0xFF; 32]);
    let proposal = make_proposal(Height(0), Round(0), wrong_hash, &keys[0]);

    let msgs = sm.on_proposal(&proposal, Some(&block));
    assert!(msgs.is_empty(), "mismatched block hash should reject the proposal");
    assert!(sm.round_state.proposal.is_none());
}

#[test]
fn test_advance_height_clears_proposed_blocks() {
    let (keys, ids) = make_validators(4);
    let mut sm = BftStateMachine::new(Height(0), ids, Some(1), TimeoutConfig::default());

    let proposer = ValidatorId(keys[0].verifying_key().to_bytes());
    let block = Block {
        header: BlockHeader {
            height: Height(0),
            timestamp: 1700000000,
            parent_hash: BlockHash::default(),
            proposer,
            state_root: [0u8; 32],
            tx_merkle_root: [0u8; 32],
        },
        transactions: vec![],
    };
    let hash = block.hash();
    sm.proposed_blocks.insert(hash, block.clone());
    assert!(sm.get_committed_block(&hash).is_some());

    sm.advance_height(Height(1));
    assert!(sm.proposed_blocks.is_empty(), "proposed_blocks should be cleared on height advance");
}

#[test]
fn propose_timeout_emits_a_nil_prevote_and_the_prevote_timeout() {
    let (_keys, ids) = make_validators(4);
    let first = ids[0];
    let mut sm = BftStateMachine::new(Height(3), ids, Some(2), TimeoutConfig::default());
    sm.start_round(Round(1));
    let locked = sm.locked_value;
    let valid = sm.valid_value;

    let msgs = sm.on_timeout(TimeoutEvent {
        height: Height(3),
        round: Round(1),
        step: TimeoutStep::Propose,
    });

    assert_eq!(sm.step, RoundStep::Prevote);
    assert_eq!(sm.round, Round(1));
    assert_eq!(sm.locked_value, locked);
    assert_eq!(sm.valid_value, valid);
    assert_eq!(msgs.len(), 2);
    match &msgs[0] {
        ConsensusMessage::CastVote(vote) => {
            assert_eq!(vote.vote_type, VoteType::Prevote);
            assert_eq!(vote.height, Height(3));
            assert_eq!(vote.round, Round(1));
            assert_eq!(vote.block_hash, None);
            assert_eq!(vote.validator, first);
            assert_eq!(vote.signature, [0u8; 64]);
        }
        _ => panic!("a nil prevote was expected first"),
    }
    match &msgs[1] {
        ConsensusMessage::ScheduleTimeout(event) => {
            assert_eq!(
                *event,
                TimeoutEvent { height: Height(3), round: Round(1), step: TimeoutStep::Prevote }
            );
        }
        _ => panic!("the prevote timeout was expected second"),
    }

    // The node has left the step: the same timeout does nothing now.
    let again = sm.on_timeout(TimeoutEvent {
        height: Height(3),
        round: Round(1),
        step: TimeoutStep::Propose,
    });
    assert!(again.is_empty());
    assert_eq!(sm.step, RoundStep::Prevote);
}
