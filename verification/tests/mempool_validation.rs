use ed25519_dalek::{Signer, SigningKey};
use rand::rngs::OsRng;
use trv1::bft::block::Transaction;
use trv1::mempool::types::MempoolError;
use trv1::mempool::validation::{build_signing_message, validate_transaction, verify_signature};

fn val_signed_tx(signing_key: &SigningKey, to: [u8; 32], amount: u64, nonce: u64) -> Transaction {
    let from: [u8; 32] = signing_key.verifying_key().to_bytes();
    let data = vec![];

    let mut tx = Transaction {
        from,
        to,
        amount,
        nonce,
        signature: vec![],
        data,
    };

    let message = build_signing_message(&tx);
    let sig = signing_key.sign(&message);
    tx.signature = sig.to_bytes().to_vec();
    tx
}

#[test]
fn test_validate_zero_sender() {
    let tx = Transaction {
        from: [0u8; 32],
        to: [2u8; 32],
        amount: 100,
        nonce: 0,
        signature: vec![0u8; 64],
        data: vec![],
    };
    let err = validate_transaction(&tx).unwrap_err();
    assert!(matches!(err, MempoolError::InvalidTransaction(_)));
}

#[test]
fn test_validate_empty_signature() {
    let tx = Transaction {
        from: [1u8; 32],
        to: [2u8; 32],
        amount: 100,
        nonce: 0,
        signature: vec![],
        data: vec![],
    };
    let err = validate_transaction(&tx).unwrap_err();
    assert!(matches!(err, MempoolError::InvalidTransaction(_)));
}

#[test]
fn test_validate_valid_tx() {
    let tx = Transaction {
        from: [1u8; 32],
        to: [2u8; 32],
        amount: 100,
        nonce: 0,
        signature: vec![0u8; 64],
        data: vec![],
    };
    assert!(validate_transaction(&tx).is_ok());
}

#[test]
fn test_verify_signature_valid() {
    let signing_key = SigningKey::generate(&mut OsRng);
    let tx = val_signed_tx(&signing_key, [2u8; 32], 100, 0);
    assert!(verify_signature(&tx).is_ok());
}

#[test]
fn test_verify_signature_tampered_amount() {
    let signing_key = SigningKey::generate(&mut OsRng);
    let mut tx = val_signed_tx(&signing_key, [2u8; 32], 100, 0);
    tx.amount = 999; // tamper
    assert!(matches!(
        verify_signature(&tx),
        Err(MempoolError::InvalidSignature)
    ));
}

#[test]
fn test_verify_signature_wrong_key() {
    let signing_key = SigningKey::generate(&mut OsRng);
    let other_key = SigningKey::generate(&mut OsRng);
    let mut tx = val_signed_tx(&signing_key, [2u8; 32], 100, 0);
    // Replace from with a different key
    tx.from = other_key.verifying_key().to_bytes();
    assert!(matches!(
        verify_signature(&tx),
        Err(MempoolError::InvalidSignature)
    ));
}

#[test]
fn test_verify_signature_bad_length() {
    let tx = Transaction {
        from: [1u8; 32],
        to: [2u8; 32],
        amount: 100,
        nonce: 0,
        signature: vec![0u8; 32], // wrong length (should be 64)
        data: vec![],
    };
    assert!(matches!(
        verify_signature(&tx),
        Err(MempoolError::InvalidSignature)
    ));
}

#[test]
fn zero_amount_is_rejected() {
    let sk = SigningKey::generate(&mut OsRng);
    let tx = val_signed_tx(&sk, [2u8; 32], 0, 0);
    assert_eq!(
        validate_transaction(&tx),
        Err(MempoolError::InvalidTransaction("amount must be greater than zero".to_string()))
    );
    let tx = val_signed_tx(&sk, [2u8; 32], 1, 0);
    assert_eq!(validate_transaction(&tx), Ok(()));
    assert_eq!(build_signing_message(&tx), tx.signing_message());
}
