use sha2::{Digest, Sha256};
use ed25519_dalek::SigningKey;
use rand::rngs::OsRng;
use trv1::bft::block::{Block, BlockHeader, Transaction};
use trv1::bft::types::{BlockHash, Height, ValidatorId};

fn block_test_key() -> SigningKey {
    SigningKey::generate(&mut OsRng)
}

fn make_test_block(tx_count: usize) -> Block {
    let signing_key = block_test_key();
    let proposer = ValidatorId(signing_key.verifying_key().to_bytes());
    let transactions: Vec<Transaction> = (0..tx_count)
        .map(|i| Transaction {
            from: [i as u8; 32],
            to: [(i + 1) as u8; 32],
            amount: 100 * (i as u64 + 1),
            nonce: i as u64,
            signature: vec![0u8; 64],
            data: vec![],
        })
        .collect();
    let tx_merkle_root = Block::compute_tx_merkle_root(&transactions);
    Block {
        header: BlockHeader {
            height: Height(1),
            timestamp: 1700000000,
            parent_hash: BlockHash::default(),
            proposer,
            state_root: [0u8; 32],
            tx_merkle_root,
        },
        transactions,
    }
}

fn plain_tx(i: u8, amount: u64) -> Transaction {
    Transaction {
        from: [i; 32],
        to: [i + 1; 32],
        amount,
        nonce: i as u64,
        signature: vec![],
        data: vec![],
    }
}

#[test]
fn test_block_hash_deterministic() {
    let block = make_test_block(2);
    let h1 = block.hash();
    let h2 = block.hash();
    assert_eq!(h1, h2, "same block must produce same hash");
    assert!(!h1.is_zero(), "hash should not be zero");
}

#[test]
fn test_different_blocks_different_hashes() {
    let b1 = make_test_block(1);
    let mut b2 = make_test_block(1);
    b2.header.height = Height(2);
    assert_ne!(b1.hash(), b2.hash());
}

#[test]
fn test_merkle_root_empty() {
    let root = Block::compute_tx_merkle_root(&[]);
    assert_eq!(root, [0u8; 32]);
}

#[test]
fn test_merkle_root_single_tx() {
    let tx = Transaction {
        from: [1u8; 32],
        to: [2u8; 32],
        amount: 100,
        nonce: 0,
        signature: vec![],
        data: vec![],
    };
    let root = Block::compute_tx_merkle_root(&[tx]);
    assert_ne!(root, [0u8; 32]);
}

#[test]
fn test_merkle_root_deterministic() {
    let txs: Vec<Transaction> = (0..4).map(|i| plain_tx(i as u8, 100)).collect();
    let r1 = Block::compute_tx_merkle_root(&txs);
    let r2 = Block::compute_tx_merkle_root(&txs);
    assert_eq!(r1, r2);
}

#[test]
fn test_merkle_root_odd_tx_count() {
    let txs: Vec<Transaction> = (0..3).map(|i| plain_tx(i as u8, 100)).collect();
    let root = Block::compute_tx_merkle_root(&txs);
    assert_ne!(root, [0u8; 32]);
}

#[test]
fn test_sign_and_verify_roundtrip() {
    let signing_key = block_test_key();
    let pubkey = signing_key.verifying_key();
    let mut tx = Transaction {
        from: pubkey.to_bytes(),
        to: [2u8; 32],
        amount: 500,
        nonce: 0,
        signature: vec![],
        data: vec![1, 2, 3],
    };
    tx.sign(&signing_key.to_bytes());
    assert_eq!(tx.signature.len(), 64);
    assert!(tx.verify_signature(), "valid signature must verify");
}

#[test]
fn test_tampered_tx_fails_verification() {
    let signing_key = block_test_key();
    let pubkey = signing_key.verifying_key();
    let mut tx = Transaction {
        from: pubkey.to_bytes(),
        to: [2u8; 32],
        amount: 500,
        nonce: 0,
        signature: vec![],
        data: vec![],
    };
    tx.sign(&signing_key.to_bytes());
    assert!(tx.verify_signature());
    tx.amount = 999;
    assert!(!tx.verify_signature(), "tampered tx must fail verification");
}

#[test]
fn test_wrong_signer_fails_verification() {
    let signing_key = block_test_key();
    let wrong_key = block_test_key();
    let mut tx = Transaction {
        from: wrong_key.verifying_key().to_bytes(),
        to: [2u8; 32],
        amount: 100,
        nonce: 0,
        signature: vec![],
        data: vec![],
    };
    tx.sign(&signing_key.to_bytes());
    assert!(!tx.verify_signature(), "signature from wrong key must fail");
}

#[test]
fn test_empty_signature_fails() {
    let signing_key = block_test_key();
    let pubkey = signing_key.verifying_key();
    let tx = Transaction {
        from: pubkey.to_bytes(),
        to: [2u8; 32],
        amount: 100,
        nonce: 0,
        signature: vec![],
        data: vec![],
    };
    assert!(!tx.verify_signature(), "empty signature must fail");
}

#[test]
fn test_tx_hash_uniqueness() {
    let tx1 = Transaction {
        from: [1u8; 32],
        to: [2u8; 32],
        amount: 100,
        nonce: 0,
        signature: vec![0u8; 64],
        data: vec![],
    };
    let tx2 = Transaction {
        from: [1u8; 32],
        to: [2u8; 32],
        amount: 200,
        nonce: 0,
        signature: vec![0u8; 64],
        data: vec![],
    };
    assert_ne!(tx1.hash(), tx2.hash(), "different txs must have different hashes");
}

#[test]
fn test_tx_hash_deterministic() {
    let tx = Transaction {
        from: [1u8; 32],
        to: [2u8; 32],
        amount: 100,
        nonce: 0,
        signature: vec![0u8; 64],
        data: vec![],
    };
    assert_eq!(tx.hash(), tx.hash(), "same tx must produce same hash");
}

#[test]
fn test_signing_message_deterministic() {
    let tx = Transaction {
        from: [1u8; 32],
        to: [2u8; 32],
        amount: 100,
        nonce: 0,
        signature: vec![],
        data: vec![10, 20],
    };
    assert_eq!(tx.signing_message(), tx.signing_message(), "signing message must be deterministic");
}

// The signing message is SHA-256 over sender, receiver, amount, nonce and data.
#[test]
fn signing_message_is_sha256_of_the_fields() {
    let tx = Transaction {
        from: [1u8; 32],
        to: [2u8; 32],
        amount: 0x0102030405060708,
        nonce: 9,
        signature: vec![7u8; 64],
        data: vec![10, 20],
    };
    let mut preimage = Vec::new();
    preimage.extend_from_slice(&[1u8; 32]);
    preimage.extend_from_slice(&[2u8; 32]);
    preimage.extend_from_slice(&[8, 7, 6, 5, 4, 3, 2, 1]);
    preimage.extend_from_slice(&[9, 0, 0, 0, 0, 0, 0, 0]);
    preimage.extend_from_slice(&[10, 20]);
    let expected: [u8; 32] = Sha256::digest(&preimage).into();
    assert_eq!(tx.signing_message(), expected);
}

// The canonical encoding holds every field, the byte strings behind their lengths.
#[test]
fn transaction_encoding_layout() {
    let tx = Transaction {
        from: [1u8; 32],
        to: [2u8; 32],
        amount: 3,
        nonce: 4,
        signature: vec![5, 6],
        data: vec![7],
    };
    let mut expected = Vec::new();
    expected.extend_from_slice(&[1u8; 32]);
    expected.extend_from_slice(&[2u8; 32]);
    expected.extend_from_slice(&3u64.to_le_bytes());
    expected.extend_from_slice(&4u64.to_le_bytes());
    expected.extend_from_slice(&2u64.to_le_bytes());
    expected.extend_from_slice(&[5, 6]);
    expected.extend_from_slice(&1u64.to_le_bytes());
    expected.extend_from_slice(&[7]);
    assert_eq!(tx.encode(), expected);
}

// With three transactions the last leaf is paired with itself.
#[test]
fn merkle_root_duplicates_the_odd_leaf() {
    let txs: Vec<Transaction> = (0..3).map(|i| plain_tx(i as u8, 100)).collect();
    let leaves: Vec<[u8; 32]> = txs.iter().map(|t| t.hash()).collect();
    let pair = |a: &[u8; 32], b: &[u8; 32]| -> [u8; 32] {
        let mut h = Sha256::new();
        h.update(a);
        h.update(b);
        h.finalize().into()
    };
    let left = pair(&leaves[0], &leaves[1]);
    let right = pair(&leaves[2], &leaves[2]);
    let expected = pair(&left, &right);
    assert_eq!(Block::compute_tx_merkle_root(&txs), expected);
}

#[test]
fn merkle_root_of_one_transaction_is_its_hash() {
    let tx = plain_tx(1, 100);
    let hash = tx.hash();
    assert_eq!(Block::compute_tx_merkle_root(&[tx]), hash);
}

#[test]
fn block_hash_covers_the_header_only() {
    let block = make_test_block(2);
    let encoded = block.header.encode();
    assert_eq!(encoded.len(), 8 + 8 + 32 + 8 + 32 + 32 + 32);
    let expected: [u8; 32] = Sha256::digest(&encoded).into();
    assert_eq!(block.hash(), BlockHash(expected));
    let mut other = block.clone();
    other.transactions.clear();
    assert_eq!(other.hash(), block.hash());
}

#[test]
fn block_hash_hex_text() {
    let hash = BlockHash([0xab; 32]);
    assert_eq!(hash.to_hex(), "ab".repeat(32));
    assert!(BlockHash([0u8; 32]).is_zero());
    assert!(!hash.is_zero());
}
