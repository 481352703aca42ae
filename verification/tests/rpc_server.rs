use ed25519_dalek::{Signer, SigningKey};
use rand::rngs::OsRng;
use trv1::bft::block::Transaction;
use trv1::mempool::pool::TransactionPool;
use trv1::mempool::types::MempoolConfig;
use trv1::rpc::server::{
    parse_transaction_request, placeholder_block, RpcState, INVALID_PARAMS, NOT_COMMITTED,
    REJECTED,
};
use trv1::rpc::types::{BlockResponse, SubmitTransactionRequest, ValidatorResponse};
use trv1::state::accounts::AccountState;
use trv1::state::state_db::StateDB;

fn mock_rpc() -> RpcState {
    RpcState::new_mock()
}

#[test]
fn rpc_state_defaults() {
    let state = RpcState::new_mock();
    assert_eq!(state.current_height, 0);
    assert_eq!(state.validator_count, 0);
    assert_eq!(state.base_fee, 1);
}

#[test]
fn rpc_impl_health() {
    let mut state = RpcState::new_mock();
    state.current_height = 42;
    state.validator_count = 4;

    let rpc = state.clone();
    let resp = rpc.health("0.1.0").unwrap();
    assert_eq!(resp.status, "ok");
    assert_eq!(resp.current_height, 42);
    assert_eq!(resp.validator_count, 4);
    assert_eq!(resp.version, "0.1.0");
}

#[test]
fn rpc_impl_get_block_from_store() {
    let mut state = RpcState::new_mock();
    // Populate the block store with a block at height 0.
    state.block_store.push(BlockResponse {
        height: 0,
        timestamp: 1700000000,
        parent_hash: "0".repeat(64),
        proposer: "aa".repeat(32),
        tx_count: 2,
        block_hash: "bb".repeat(32),
    });
    state.current_height = 0;

    let rpc = state.clone();
    let resp = rpc.get_block(0).unwrap();
    assert_eq!(resp.height, 0);
    assert_eq!(resp.tx_count, 2);
    assert_eq!(resp.proposer, "aa".repeat(32));
}

#[test]
fn rpc_impl_get_block_future_height_error() {
    let rpc = mock_rpc();
    // Height 10 has not been committed; current_height is 0.
    let resp = rpc.get_block(10);
    assert!(resp.is_err());
}

#[test]
fn rpc_impl_get_block_placeholder_fallback() {
    // When current_height is set but block_store is empty (backwards compat)
    let mut state = RpcState::new_mock();
    state.current_height = 5;
    let rpc = state;
    let resp = rpc.get_block(3).unwrap();
    assert_eq!(resp.height, 3);
    assert_eq!(resp.block_hash, "0".repeat(64));
}

#[test]
fn rpc_impl_get_latest_block_from_store() {
    let mut state = RpcState::new_mock();
    state.block_store.push(BlockResponse {
        height: 0,
        timestamp: 100,
        parent_hash: "0".repeat(64),
        proposer: "aa".repeat(32),
        tx_count: 1,
        block_hash: "cc".repeat(32),
    });
    state.block_store.push(BlockResponse {
        height: 1,
        timestamp: 200,
        parent_hash: "cc".repeat(32),
        proposer: "bb".repeat(32),
        tx_count: 3,
        block_hash: "dd".repeat(32),
    });
    state.current_height = 1;

    let rpc = state;
    let resp = rpc.get_latest_block().unwrap();
    assert_eq!(resp.height, 1);
    assert_eq!(resp.tx_count, 3);
    assert_eq!(resp.block_hash, "dd".repeat(32));
}

#[test]
fn rpc_impl_get_latest_block_empty_store() {
    let mut state = RpcState::new_mock();
    state.current_height = 99;
    let rpc = state;
    let resp = rpc.get_latest_block().unwrap();
    // Falls back to placeholder at current height.
    assert_eq!(resp.height, 99);
    assert_eq!(resp.block_hash, "0".repeat(64));
}

#[test]
fn rpc_impl_get_validators_from_genesis() {
    let validators = vec![
        ValidatorResponse {
            pubkey: "aa".repeat(32),
            stake: 1_000_000,
            commission_rate: 500,
            status: "Active".to_string(),
            performance_score: 10_000,
        },
        ValidatorResponse {
            pubkey: "bb".repeat(32),
            stake: 2_000_000,
            commission_rate: 300,
            status: "Active".to_string(),
            performance_score: 9_500,
        },
    ];
    let state = RpcState::new(
        TransactionPool::new(MempoolConfig::default()),
        StateDB::new(),
        validators.clone(),
    );
    let rpc = state;
    let resp = rpc.get_validators().unwrap();
    assert_eq!(resp.len(), 2);
    assert_eq!(resp[0].pubkey, "aa".repeat(32));
    assert_eq!(resp[0].stake, 1_000_000);
    assert_eq!(resp[1].pubkey, "bb".repeat(32));
    assert_eq!(resp[1].stake, 2_000_000);
    assert_eq!(resp, validators);
    assert_eq!(rpc.validator_count, 2);
}

#[test]
fn rpc_impl_get_validators_empty() {
    let rpc = mock_rpc();
    let resp = rpc.get_validators().unwrap();
    assert!(resp.is_empty());
}

#[test]
fn rpc_impl_staking_info() {
    let rpc = mock_rpc();
    let resp = rpc.get_staking_info("test_key".to_string()).unwrap();
    assert_eq!(resp.pubkey, "test_key");
    assert_eq!(resp.total_staked, 0);
    assert_eq!(resp.voting_power, 0);
}

#[test]
fn rpc_impl_fee_info() {
    let mut state = RpcState::new_mock();
    state.base_fee = 100;
    let rpc = state.clone();
    let resp = rpc.get_fee_info().unwrap();
    assert_eq!(resp.base_fee, 100);
    assert_eq!(resp.target_gas_per_block, 15_000_000);
}

fn make_signed_submit_request(
    signing_key: &SigningKey,
    to: [u8; 32],
    amount: u64,
    nonce: u64,
) -> SubmitTransactionRequest {
    let from = signing_key.verifying_key().to_bytes();

    // Build a Transaction to compute signing_message(), then sign it
    let mut tx = Transaction {
        from,
        to,
        amount,
        nonce,
        signature: vec![],
        data: vec![],
    };
    tx.sign(&signing_key.to_bytes());

    SubmitTransactionRequest {
        from: hex::encode(from),
        to: hex::encode(to),
        amount,
        nonce,
        signature: hex::encode(&tx.signature),
        data: String::new(),
    }
}

#[test]
fn rpc_submit_transaction_accepted() {
    let mut rpc = mock_rpc();
    let sk = SigningKey::generate(&mut OsRng);
    let req = make_signed_submit_request(&sk, [2u8; 32], 100, 0);

    let resp = rpc.submit_transaction(req).unwrap();
    assert!(resp.accepted);
    assert!(!resp.tx_hash.is_empty());
}

#[test]
fn rpc_submit_transaction_duplicate_rejected() {
    let mut rpc = mock_rpc();
    let sk = SigningKey::generate(&mut OsRng);
    let req = make_signed_submit_request(&sk, [2u8; 32], 100, 0);

    let resp1 = rpc.submit_transaction(req.clone()).unwrap();
    assert!(resp1.accepted);

    // Same tx again should be rejected
    let resp2 = rpc.submit_transaction(req);
    assert!(resp2.is_err());
}

#[test]
fn rpc_submit_transaction_bad_hex() {
    let mut rpc = mock_rpc();
    let req = SubmitTransactionRequest {
        from: "not_valid_hex!".to_string(),
        to: hex::encode([2u8; 32]),
        amount: 100,
        nonce: 0,
        signature: hex::encode([0u8; 64]),
        data: String::new(),
    };

    let resp = rpc.submit_transaction(req);
    assert!(resp.is_err());
}

#[test]
fn rpc_submit_transaction_wrong_length() {
    let mut rpc = mock_rpc();
    let req = SubmitTransactionRequest {
        from: hex::encode([1u8; 16]), // 16 bytes, not 32
        to: hex::encode([2u8; 32]),
        amount: 100,
        nonce: 0,
        signature: hex::encode([0u8; 64]),
        data: String::new(),
    };

    let resp = rpc.submit_transaction(req);
    assert!(resp.is_err());
}

#[test]
fn rpc_get_account_existing() {
    let mut state = RpcState::new_mock();
    let pubkey = [0xaau8; 32];

    // Seed the state DB
    {
        let db = &mut state.state_db;
        db.set_account(pubkey, AccountState::new(5000));
        let acct = db.get_account_mut(&pubkey).unwrap();
        acct.increment_nonce();
        acct.increment_nonce();
    }

    let rpc = state.clone();

    let resp = rpc.get_account(hex::encode(pubkey)).unwrap();
    assert_eq!(resp.balance, 5000);
    assert_eq!(resp.nonce, 2);
    assert_eq!(resp.pubkey, hex::encode(pubkey));
}

#[test]
fn rpc_get_account_nonexistent() {
    let rpc = mock_rpc();
    let pubkey = [0xbb; 32];
    let resp = rpc.get_account(hex::encode(pubkey)).unwrap();
    assert_eq!(resp.balance, 0);
    assert_eq!(resp.nonce, 0);
}

#[test]
fn rpc_get_account_bad_hex() {
    let rpc = mock_rpc();
    let resp = rpc.get_account("not_hex!!".to_string());
    assert!(resp.is_err());
}

#[test]
fn rpc_get_account_wrong_length() {
    let rpc = mock_rpc();
    let resp = rpc.get_account(hex::encode([1u8; 16]));
    assert!(resp.is_err());
}

#[test]
fn rpc_error_codes_and_messages() {
    let mut rpc = mock_rpc();
    rpc.current_height = 4;

    let err = rpc.get_block(5).unwrap_err();
    assert_eq!(err.code, NOT_COMMITTED);
    assert_eq!(err.code, -32001);
    assert_eq!(err.message, "block at height 5 not yet committed (current: 4)");

    let err = rpc.get_account(hex::encode([1u8; 16])).unwrap_err();
    assert_eq!(err.code, INVALID_PARAMS);
    assert_eq!(err.code, -32602);
    assert_eq!(err.message, "pubkey must be 32 bytes");

    let err = rpc.get_account("zz".to_string()).unwrap_err();
    assert_eq!(err.code, INVALID_PARAMS);
    assert_eq!(
        err.message,
        format!("invalid pubkey hex: {}", hex::decode("zz").unwrap_err())
    );

    let sk = SigningKey::from_bytes(&[3u8; 32]);
    let req = make_signed_submit_request(&sk, [2u8; 32], 100, 0);
    rpc.submit_transaction(req.clone()).unwrap();
    let err = rpc.submit_transaction(req).unwrap_err();
    assert_eq!(err.code, REJECTED);
    assert_eq!(err.code, -32000);
    assert!(err.message.starts_with("transaction rejected: "));
}

#[test]
fn rpc_submit_answers_with_the_hash_of_the_transaction() {
    let mut rpc = mock_rpc();
    let sk = SigningKey::from_bytes(&[9u8; 32]);
    let req = make_signed_submit_request(&sk, [2u8; 32], 100, 0);
    let tx = parse_transaction_request(&req).unwrap();
    assert_eq!(tx.from, sk.verifying_key().to_bytes());
    assert_eq!(tx.to, [2u8; 32]);
    assert_eq!(tx.amount, 100);
    assert_eq!(tx.nonce, 0);
    assert_eq!(tx.signature, sk.sign(&tx.signing_message()).to_bytes().to_vec());
    assert!(tx.data.is_empty());
    let resp = rpc.submit_transaction(req).unwrap();
    assert_eq!(resp.tx_hash, hex::encode(tx.hash()));
    assert!(rpc.mempool.contains(&tx.hash()));
    assert_eq!(rpc.mempool.pending_count(), 1);
}

#[test]
fn rpc_submit_reads_the_data_field() {
    let req = SubmitTransactionRequest {
        from: hex::encode([1u8; 32]),
        to: hex::encode([2u8; 32]),
        amount: 1,
        nonce: 2,
        signature: hex::encode([7u8; 64]),
        data: "0a0b".to_string(),
    };
    let tx = parse_transaction_request(&req).unwrap();
    assert_eq!(tx.data, vec![0x0a, 0x0b]);
    assert_eq!(tx.signature, vec![7u8; 64]);

    let bad = SubmitTransactionRequest { data: "0g".to_string(), ..req.clone() };
    let err = parse_transaction_request(&bad).unwrap_err();
    assert_eq!(err.code, INVALID_PARAMS);
    assert_eq!(
        err.message,
        format!("invalid 'data' hex: {}", hex::decode("0g").unwrap_err())
    );

    let bad = SubmitTransactionRequest { signature: "xyz".to_string(), ..req.clone() };
    let err = parse_transaction_request(&bad).unwrap_err();
    assert_eq!(err.code, INVALID_PARAMS);
    assert_eq!(
        err.message,
        format!("invalid 'signature' hex: {}", hex::decode("xyz").unwrap_err())
    );

    let bad = SubmitTransactionRequest { from: "q".to_string(), to: "r".to_string(), ..req.clone() };
    let err = parse_transaction_request(&bad).unwrap_err();
    assert_eq!(
        err.message,
        format!("invalid 'from' hex: {}", hex::decode("q").unwrap_err())
    );

    let bad = SubmitTransactionRequest { to: hex::encode([2u8; 33]), ..req };
    let err = parse_transaction_request(&bad).unwrap_err();
    assert_eq!(err.message, "'to' must be 32 bytes");
}

#[test]
fn placeholder_block_is_all_zero() {
    let block = placeholder_block(12);
    assert_eq!(block.height, 12);
    assert_eq!(block.timestamp, 0);
    assert_eq!(block.parent_hash, "0".repeat(64));
    assert_eq!(block.proposer, "0".repeat(64));
    assert_eq!(block.tx_count, 0);
    assert_eq!(block.block_hash, "0".repeat(64));
}

#[test]
fn get_block_prefers_the_store() {
    let mut state = RpcState::new_mock();
    state.current_height = 3;
    state.block_store.push(BlockResponse {
        height: 0,
        timestamp: 7,
        parent_hash: "0".repeat(64),
        proposer: String::new(),
        tx_count: 1,
        block_hash: "ab".repeat(32),
    });
    assert_eq!(state.get_block(0).unwrap().block_hash, "ab".repeat(32));
    assert_eq!(state.get_block(1).unwrap(), placeholder_block(1));
    assert_eq!(state.get_block(3).unwrap(), placeholder_block(3));
    assert!(state.get_block(4).is_err());
    // The latest block is the last one of the store, whatever its height.
    assert_eq!(state.get_latest_block().unwrap().block_hash, "ab".repeat(32));
}
