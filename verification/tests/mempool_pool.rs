use ed25519_dalek::{Signer, SigningKey};
use rand::rngs::OsRng;
use trv1::bft::block::Transaction;
use trv1::mempool::pool::{compute_tx_hash, TransactionPool};
use trv1::mempool::types::{MempoolConfig, MempoolError};

fn pool_tx(from: [u8; 32], to: [u8; 32], amount: u64, nonce: u64) -> Transaction {
    Transaction {
        from,
        to,
        amount,
        nonce,
        signature: vec![0u8; 64], // dummy sig for non-pool tests (hashing, structural rejection)
        data: vec![],
    }
}

fn pool_signed_tx(
    signing_key: &SigningKey,
    to: [u8; 32],
    amount: u64,
    nonce: u64,
) -> Transaction {
    let from = signing_key.verifying_key().to_bytes();
    let data = vec![];

    let mut tx = Transaction {
        from,
        to,
        amount,
        nonce,
        signature: vec![],
        data,
    };

    let message = tx.signing_message();
    let sig = signing_key.sign(&message);
    tx.signature = sig.to_bytes().to_vec();
    tx
}

fn pool_default() -> TransactionPool {
    TransactionPool::new(MempoolConfig::default())
}

fn pool_small() -> TransactionPool {
    TransactionPool::new(MempoolConfig {
        max_size: 3,
        max_tx_per_account: 2,
    })
}

#[test]
fn test_add_and_count() {
    let mut pool = pool_default();
    let sk = SigningKey::generate(&mut OsRng);
    let tx = pool_signed_tx(&sk, [2u8; 32], 100, 0);
    assert!(pool.add_transaction(tx).is_ok());
    assert_eq!(pool.pending_count(), 1);
}

#[test]
fn test_dedup_detection() {
    let mut pool = pool_default();
    let sk = SigningKey::generate(&mut OsRng);
    let tx = pool_signed_tx(&sk, [2u8; 32], 100, 0);
    assert!(pool.add_transaction(tx.clone()).is_ok());
    let err = pool.add_transaction(tx).unwrap_err();
    assert_eq!(err, MempoolError::DuplicateTransaction);
    assert_eq!(pool.pending_count(), 1);
}

#[test]
fn test_pool_full() {
    let mut pool = pool_small();
    let sk1 = SigningKey::generate(&mut OsRng);
    let sk2 = SigningKey::generate(&mut OsRng);
    let sk3 = SigningKey::generate(&mut OsRng);
    let sk4 = SigningKey::generate(&mut OsRng);
    pool.add_transaction(pool_signed_tx(&sk1, [2u8; 32], 100, 0)).unwrap();
    pool.add_transaction(pool_signed_tx(&sk2, [3u8; 32], 200, 0)).unwrap();
    pool.add_transaction(pool_signed_tx(&sk3, [4u8; 32], 300, 0)).unwrap();

    let err = pool
        .add_transaction(pool_signed_tx(&sk4, [5u8; 32], 400, 0))
        .unwrap_err();
    assert_eq!(err, MempoolError::PoolFull);
}

#[test]
fn test_per_account_limit() {
    let mut pool = pool_small();
    let sk = SigningKey::generate(&mut OsRng);
    pool.add_transaction(pool_signed_tx(&sk, [2u8; 32], 100, 0)).unwrap();
    pool.add_transaction(pool_signed_tx(&sk, [2u8; 32], 200, 1)).unwrap();

    // Third tx from same sender exceeds per-account limit of 2
    let err = pool
        .add_transaction(pool_signed_tx(&sk, [2u8; 32], 300, 2))
        .unwrap_err();
    assert_eq!(err, MempoolError::PoolFull);
}

#[test]
fn test_ordering_by_priority() {
    let mut pool = pool_default();
    let sk1 = SigningKey::generate(&mut OsRng);
    let sk2 = SigningKey::generate(&mut OsRng);
    let sk3 = SigningKey::generate(&mut OsRng);
    pool.add_transaction(pool_signed_tx(&sk1, [2u8; 32], 10, 0)).unwrap();
    pool.add_transaction(pool_signed_tx(&sk2, [3u8; 32], 500, 0)).unwrap();
    pool.add_transaction(pool_signed_tx(&sk3, [4u8; 32], 100, 0)).unwrap();

    let ordered = pool.get_pending_ordered(10);
    assert_eq!(ordered.len(), 3);
    assert_eq!(ordered[0].amount, 500); // highest priority first
    assert_eq!(ordered[1].amount, 100);
    assert_eq!(ordered[2].amount, 10);
}

#[test]
fn test_ordering_max_count() {
    let mut pool = pool_default();
    let sk1 = SigningKey::generate(&mut OsRng);
    let sk2 = SigningKey::generate(&mut OsRng);
    let sk3 = SigningKey::generate(&mut OsRng);
    pool.add_transaction(pool_signed_tx(&sk1, [2u8; 32], 10, 0)).unwrap();
    pool.add_transaction(pool_signed_tx(&sk2, [3u8; 32], 500, 0)).unwrap();
    pool.add_transaction(pool_signed_tx(&sk3, [4u8; 32], 100, 0)).unwrap();

    let ordered = pool.get_pending_ordered(2);
    assert_eq!(ordered.len(), 2);
    assert_eq!(ordered[0].amount, 500);
    assert_eq!(ordered[1].amount, 100);
}

#[test]
fn test_contains() {
    let mut pool = pool_default();
    let sk = SigningKey::generate(&mut OsRng);
    let tx = pool_signed_tx(&sk, [2u8; 32], 100, 0);
    let hash = compute_tx_hash(&tx);
    assert!(!pool.contains(&hash));
    pool.add_transaction(tx).unwrap();
    assert!(pool.contains(&hash));
}

#[test]
fn test_remove_committed() {
    let mut pool = pool_default();
    let sk1 = SigningKey::generate(&mut OsRng);
    let sk2 = SigningKey::generate(&mut OsRng);
    let tx1 = pool_signed_tx(&sk1, [2u8; 32], 100, 0);
    let tx2 = pool_signed_tx(&sk2, [3u8; 32], 200, 0);
    let hash1 = compute_tx_hash(&tx1);
    let hash2 = compute_tx_hash(&tx2);

    pool.add_transaction(tx1).unwrap();
    pool.add_transaction(tx2).unwrap();
    assert_eq!(pool.pending_count(), 2);

    pool.remove_committed(&[hash1]);
    assert_eq!(pool.pending_count(), 1);
    assert!(!pool.contains(&hash1));
    assert!(pool.contains(&hash2));
}

#[test]
fn test_clear() {
    let mut pool = pool_default();
    let sk1 = SigningKey::generate(&mut OsRng);
    let sk2 = SigningKey::generate(&mut OsRng);
    pool.add_transaction(pool_signed_tx(&sk1, [2u8; 32], 100, 0)).unwrap();
    pool.add_transaction(pool_signed_tx(&sk2, [3u8; 32], 200, 0)).unwrap();
    assert_eq!(pool.pending_count(), 2);

    pool.clear();
    assert_eq!(pool.pending_count(), 0);
}

#[test]
fn test_reject_zero_sender() {
    let mut pool = pool_default();
    let tx = pool_tx([0u8; 32], [2u8; 32], 100, 0);
    let err = pool.add_transaction(tx).unwrap_err();
    assert!(matches!(err, MempoolError::InvalidTransaction(_)));
}

#[test]
fn test_reject_empty_signature() {
    let mut pool = pool_default();
    let mut tx = pool_tx([1u8; 32], [2u8; 32], 100, 0);
    tx.signature = vec![]; // empty
    let err = pool.add_transaction(tx).unwrap_err();
    assert!(matches!(err, MempoolError::InvalidTransaction(_)));
}

#[test]
fn test_reject_invalid_signature() {
    let mut pool = pool_default();
    let sk = SigningKey::generate(&mut OsRng);
    let mut tx = pool_signed_tx(&sk, [2u8; 32], 100, 0);
    tx.amount = 999; // tamper with transaction after signing
    let err = pool.add_transaction(tx).unwrap_err();
    assert_eq!(err, MempoolError::InvalidSignature);
}

#[test]
fn test_compute_tx_hash_deterministic() {
    let tx = pool_tx([1u8; 32], [2u8; 32], 100, 0);
    let h1 = compute_tx_hash(&tx);
    let h2 = compute_tx_hash(&tx);
    assert_eq!(h1, h2);
}

#[test]
fn test_compute_tx_hash_different_txs() {
    let tx1 = pool_tx([1u8; 32], [2u8; 32], 100, 0);
    let tx2 = pool_tx([1u8; 32], [2u8; 32], 200, 0);
    assert_ne!(compute_tx_hash(&tx1), compute_tx_hash(&tx2));
}

#[test]
fn test_real_signed_tx_in_pool() {
    let mut pool = pool_default();
    let sk = SigningKey::generate(&mut OsRng);
    let tx = pool_signed_tx(&sk, [2u8; 32], 100, 0);
    assert!(pool.add_transaction(tx).is_ok());
    assert_eq!(pool.pending_count(), 1);
}

#[test]
fn test_remove_nonexistent_is_noop() {
    let mut pool = pool_default();
    let sk = SigningKey::generate(&mut OsRng);
    pool.add_transaction(pool_signed_tx(&sk, [2u8; 32], 100, 0)).unwrap();
    let fake_hash = [0xffu8; 32];
    pool.remove_committed(&[fake_hash]);
    assert_eq!(pool.pending_count(), 1);
}

#[test]
fn pool_refuses_a_zero_amount() {
    let mut pool = pool_default();
    let sk = SigningKey::generate(&mut OsRng);
    let tx = pool_signed_tx(&sk, [2u8; 32], 0, 0);
    assert!(matches!(pool.add_transaction(tx), Err(MempoolError::InvalidTransaction(_))));
    assert_eq!(pool.pending_count(), 0);
}

#[test]
fn pending_order_is_by_priority_then_arrival() {
    let mut pool = pool_default();
    let a = SigningKey::generate(&mut OsRng);
    let b = SigningKey::generate(&mut OsRng);
    let t1 = pool_signed_tx(&a, [2u8; 32], 50, 0);
    let t2 = pool_signed_tx(&b, [2u8; 32], 70, 0);
    let t3 = pool_signed_tx(&a, [2u8; 32], 70, 1);
    let t4 = pool_signed_tx(&b, [2u8; 32], 50, 1);
    for tx in [&t1, &t2, &t3, &t4] {
        pool.add_transaction(tx.clone()).unwrap();
    }
    assert_eq!(pool.get_pending_ordered(10), vec![t2.clone(), t3.clone(), t1.clone(), t4.clone()]);
    assert_eq!(pool.get_pending_ordered(1), vec![t2.clone()]);
    pool.remove_committed(&[compute_tx_hash(&t2), compute_tx_hash(&t1)]);
    assert_eq!(pool.get_pending_ordered(10), vec![t3, t4]);
    assert!(!pool.contains(&compute_tx_hash(&t1)));
    assert_eq!(compute_tx_hash(&t2), t2.hash());
}
