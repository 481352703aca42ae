use ed25519_dalek::{Signer, SigningKey};
use rand::rngs::OsRng;
use trv1::bft::block::{Block, BlockHeader, Transaction};
use trv1::bft::types::{
    BlockHash, ConsensusMessage, Height, Proposal, Round, TimeoutEvent, TimeoutStep, ValidatorId,
    Vote, VoteType,
};
use trv1::net::codec::{
    decode_block, decode_consensus_message, decode_transaction, decode_vote, encode_block,
    encode_consensus_message, encode_transaction, encode_vote, NetworkMessage,
};

#[test]
fn test_network_message_roundtrip() {
    let msg = NetworkMessage {
        sender: vec![1, 2, 3, 4],
        message: ConsensusMessage::CommitBlock {
            height: Height(42),
            block_hash: BlockHash([0xAB; 32]),
        },
    };

    let encoded = msg.encode().expect("encode should succeed");
    let decoded = NetworkMessage::decode(&encoded).expect("decode should succeed");

    assert_eq!(decoded.sender, msg.sender);
    match decoded.message {
        ConsensusMessage::CommitBlock { height, block_hash } => {
            assert_eq!(height, Height(42));
            assert_eq!(block_hash, BlockHash([0xAB; 32]));
        }
        _ => panic!("unexpected message variant"),
    }
}

#[test]
fn test_consensus_message_roundtrip_timeout() {
    let msg = ConsensusMessage::ScheduleTimeout(TimeoutEvent {
        height: Height(10),
        round: Round(3),
        step: TimeoutStep::Prevote,
    });

    let bytes = encode_consensus_message(&msg).expect("encode");
    let decoded = decode_consensus_message(&bytes).expect("decode");

    match decoded {
        ConsensusMessage::ScheduleTimeout(te) => {
            assert_eq!(te.height, Height(10));
            assert_eq!(te.round, Round(3));
            assert_eq!(te.step, TimeoutStep::Prevote);
        }
        _ => panic!("unexpected variant"),
    }
}

#[test]
fn test_decode_invalid_data() {
    let result = NetworkMessage::decode(&[0xFF, 0x00]);
    assert!(result.is_err());
}

#[test]
fn test_empty_sender() {
    let msg = NetworkMessage {
        sender: vec![],
        message: ConsensusMessage::CommitBlock {
            height: Height(0),
            block_hash: BlockHash([0; 32]),
        },
    };

    let encoded = msg.encode().unwrap();
    let decoded = NetworkMessage::decode(&encoded).unwrap();
    assert!(decoded.sender.is_empty());
}

#[test]
fn test_transaction_encode_decode_roundtrip() {
    let tx = Transaction {
        from: [1u8; 32],
        to: [2u8; 32],
        amount: 1000,
        nonce: 7,
        signature: vec![0xAB; 64],
        data: vec![1, 2, 3, 4],
    };

    let encoded = encode_transaction(&tx).expect("encode tx");
    let decoded = decode_transaction(&encoded).expect("decode tx");

    assert_eq!(decoded.from, tx.from);
    assert_eq!(decoded.to, tx.to);
    assert_eq!(decoded.amount, tx.amount);
    assert_eq!(decoded.nonce, tx.nonce);
    assert_eq!(decoded.signature, tx.signature);
    assert_eq!(decoded.data, tx.data);
}

#[test]
fn test_transaction_decode_invalid_data() {
    let result = decode_transaction(&[0xFF, 0x00]);
    assert!(result.is_err());
}

fn codec_block(key: &SigningKey) -> Block {
    let proposer = ValidatorId(key.verifying_key().to_bytes());
    let txs = vec![Transaction {
        from: [1u8; 32],
        to: [2u8; 32],
        amount: 100,
        nonce: 0,
        signature: vec![0u8; 64],
        data: vec![],
    }];
    Block {
        header: BlockHeader {
            height: Height(5),
            timestamp: 1700000000,
            parent_hash: BlockHash([0; 32]),
            proposer,
            state_root: [0u8; 32],
            tx_merkle_root: Block::compute_tx_merkle_root(&txs),
        },
        transactions: txs,
    }
}

#[test]
fn test_propose_block_with_block_roundtrip() {
    let key = SigningKey::generate(&mut OsRng);
    let proposer = ValidatorId(key.verifying_key().to_bytes());
    let block = codec_block(&key);
    let block_hash = block.hash();
    let sig = key.sign(b"proposal");

    let proposal = Proposal {
        height: Height(5),
        round: Round(0),
        block_hash,
        proposer,
        signature: sig.to_bytes(),
        valid_round: None,
    };

    let msg = ConsensusMessage::ProposeBlock { proposal: proposal.clone(), block: Some(block) };

    let bytes = encode_consensus_message(&msg).expect("encode");
    let decoded = decode_consensus_message(&bytes).expect("decode");

    match decoded {
        ConsensusMessage::ProposeBlock { proposal: p, block: b } => {
            assert_eq!(p.height, Height(5));
            assert_eq!(p.block_hash, block_hash);
            let blk = b.expect("block should be present");
            assert_eq!(blk.hash(), block_hash);
            assert_eq!(blk.transactions.len(), 1);
        }
        _ => panic!("expected ProposeBlock"),
    }
}

#[test]
fn test_propose_block_without_block_roundtrip() {
    let key = SigningKey::generate(&mut OsRng);
    let sig = key.sign(b"proposal");

    let proposal = Proposal {
        height: Height(1),
        round: Round(0),
        block_hash: BlockHash([0xAA; 32]),
        proposer: ValidatorId(key.verifying_key().to_bytes()),
        signature: sig.to_bytes(),
        valid_round: None,
    };

    let msg = ConsensusMessage::ProposeBlock { proposal: proposal.clone(), block: None };

    let bytes = encode_consensus_message(&msg).expect("encode");
    let decoded = decode_consensus_message(&bytes).expect("decode");

    match decoded {
        ConsensusMessage::ProposeBlock { proposal: p, block: b } => {
            assert_eq!(p.height, Height(1));
            assert!(b.is_none());
        }
        _ => panic!("expected ProposeBlock"),
    }
}

#[test]
fn vote_and_block_roundtrip() {
    let key = SigningKey::generate(&mut OsRng);
    for hash in [None, Some(BlockHash([7u8; 32]))] {
        let vote = Vote::new(VoteType::Precommit, Height(9), Round(u32::MAX), hash, &key.to_bytes());
        let bytes = encode_vote(&vote);
        assert_eq!(bytes.len(), 4 + 8 + 4 + 1 + hash.map_or(0, |_| 32) + 40 + 64);
        assert_eq!(decode_vote(&bytes), Ok(vote));
        assert!(decode_vote(&bytes[..bytes.len() - 1]).is_err());
    }
    let block = codec_block(&key);
    let bytes = encode_block(&block);
    assert_eq!(decode_block(&bytes), Ok(block.clone()));
    assert_eq!(bytes.len(), 152 + 8 + 96 + 64);
    let mut grown = bytes.clone();
    grown.extend_from_slice(&[1, 2, 3]);
    assert_eq!(decode_block(&grown), Ok(block));
}

#[test]
fn proposal_with_valid_round_roundtrip() {
    let key = SigningKey::generate(&mut OsRng);
    let proposal = Proposal {
        height: Height(1),
        round: Round(4),
        block_hash: BlockHash([0xAA; 32]),
        proposer: ValidatorId(key.verifying_key().to_bytes()),
        signature: [3u8; 64],
        valid_round: Some(Round(2)),
    };
    let msg = ConsensusMessage::ProposeBlock { proposal, block: None };
    let bytes = encode_consensus_message(&msg).unwrap();
    match decode_consensus_message(&bytes).unwrap() {
        ConsensusMessage::ProposeBlock { proposal: p, block: None } => assert_eq!(p, proposal),
        _ => panic!("expected ProposeBlock"),
    }
}

#[test]
fn message_layout_and_bad_tags() {
    let msg = ConsensusMessage::CommitBlock { height: Height(1), block_hash: BlockHash([9; 32]) };
    let bytes = encode_consensus_message(&msg).unwrap();
    let mut expected = vec![2, 0, 0, 0, 1, 0, 0, 0, 0, 0, 0, 0];
    expected.extend_from_slice(&[9; 32]);
    assert_eq!(bytes, expected);
    let mut bad = bytes.clone();
    bad[0] = 4;
    assert!(decode_consensus_message(&bad).is_err());
    // A timeout with a step that stands for nothing.
    let mut timeout = vec![3, 0, 0, 0];
    timeout.extend_from_slice(&[0u8; 12]);
    timeout.extend_from_slice(&[3, 0, 0, 0]);
    assert!(decode_consensus_message(&timeout).is_err());
    timeout[16] = 2;
    assert!(decode_consensus_message(&timeout).is_ok());
}

fn codec_no_curve_point() -> [u8; 32] {
    let mut n = 0u8;
    loop {
        let mut key = [0u8; 32];
        key[0] = n;
        if ed25519_dalek::VerifyingKey::from_bytes(&key).is_err() {
            return key;
        }
        n += 1;
    }
}

#[test]
fn a_vote_of_no_public_key_does_not_decode() {
    let key = SigningKey::from_bytes(&[3u8; 32]);
    let good = Vote::new(VoteType::Prevote, Height(1), Round(0), None, &key.to_bytes());
    let bytes = encode_vote(&good);
    assert_eq!(decode_vote(&bytes).unwrap(), good);

    let mut bad = good;
    bad.validator = ValidatorId(codec_no_curve_point());
    let bytes = encode_vote(&bad);
    assert!(decode_vote(&bytes).is_err());
    let wrapped = encode_consensus_message(&ConsensusMessage::CastVote(bad)).unwrap();
    assert!(decode_consensus_message(&wrapped).is_err());
}
