use trv1::state::accounts::AccountState;
use trv1::state::state_db::StateDB;
use trv1::state::types::SnapshotError;

fn snap_alice() -> [u8; 32] {
    let mut key = [0u8; 32];
    key[0] = 1;
    key
}

fn snap_bob() -> [u8; 32] {
    let mut key = [0u8; 32];
    key[0] = 2;
    key
}

fn snap_funded_state() -> StateDB {
    let mut db = StateDB::new();
    db.set_account(snap_alice(), AccountState::new(1000));
    db.set_account(snap_bob(), AccountState::new(500));
    db
}

#[test]
fn test_save_and_load_roundtrip() {
    let db = snap_funded_state();

    let saved = db.to_hex_entries();
    let loaded = StateDB::from_hex_entries(&saved).unwrap();

    // Verify all accounts survived the roundtrip
    assert_eq!(loaded.account_count(), db.account_count());
    assert_eq!(loaded.total_supply(), db.total_supply());

    let alice_acct = loaded.get_account(&snap_alice()).unwrap();
    assert_eq!(alice_acct.balance, 1000);
    assert_eq!(alice_acct.nonce, 0);

    let bob_acct = loaded.get_account(&snap_bob()).unwrap();
    assert_eq!(bob_acct.balance, 500);
    assert_eq!(bob_acct.nonce, 0);

    // State roots must match to ensure deterministic reconstruction
    assert_eq!(loaded.compute_state_root(), db.compute_state_root());
}

#[test]
fn test_save_load_preserves_nonces() {
    let mut db = StateDB::new();
    db.set_account(snap_alice(), AccountState::new(1000));
    db.set_account(snap_bob(), AccountState::new(500));

    // Perform some transfers to bump nonces
    db.apply_transfer(&snap_alice(), &snap_bob(), 100, 0).unwrap();
    db.apply_transfer(&snap_alice(), &snap_bob(), 50, 1).unwrap();
    db.apply_transfer(&snap_bob(), &snap_alice(), 25, 0).unwrap();

    // At this point: alice nonce=2, bob nonce=1
    assert_eq!(db.get_account(&snap_alice()).unwrap().nonce, 2);
    assert_eq!(db.get_account(&snap_bob()).unwrap().nonce, 1);

    let saved = db.to_hex_entries();
    let loaded = StateDB::from_hex_entries(&saved).unwrap();

    assert_eq!(loaded.get_account(&snap_alice()).unwrap().nonce, 2);
    assert_eq!(loaded.get_account(&snap_alice()).unwrap().balance, 875);
    assert_eq!(loaded.get_account(&snap_bob()).unwrap().nonce, 1);
    assert_eq!(loaded.get_account(&snap_bob()).unwrap().balance, 625);
}

#[test]
fn test_save_load_empty_state() {
    let db = StateDB::new();

    let saved = db.to_hex_entries();
    assert!(saved.is_empty());
    let loaded = StateDB::from_hex_entries(&saved).unwrap();

    assert_eq!(loaded.account_count(), 0);
    assert_eq!(loaded.total_supply(), 0);
}

#[test]
fn snapshot_lists_accounts_by_key_in_hex() {
    let mut db = StateDB::new();
    db.set_account([0xffu8; 32], AccountState { balance: 3, nonce: 4 });
    db.set_account(snap_bob(), AccountState::new(500));
    db.set_account(snap_alice(), AccountState::new(1000));
    let saved = db.to_hex_entries();
    assert_eq!(
        saved,
        vec![
            (format!("01{}", "00".repeat(31)), AccountState { balance: 1000, nonce: 0 }),
            (format!("02{}", "00".repeat(31)), AccountState { balance: 500, nonce: 0 }),
            ("ff".repeat(32), AccountState { balance: 3, nonce: 4 }),
        ]
    );
}

#[test]
fn snapshot_with_a_bad_key_is_refused() {
    let good = ("ab".repeat(32), AccountState::new(1));
    let not_hex = ("zz".repeat(32), AccountState::new(1));
    let odd = ("abc".to_string(), AccountState::new(1));
    let short = ("ab".repeat(31), AccountState::new(1));

    assert_eq!(
        StateDB::from_hex_entries(&vec![good.clone(), not_hex]).unwrap_err(),
        SnapshotError::InvalidKey { index: 1 }
    );
    assert_eq!(
        StateDB::from_hex_entries(&vec![odd, good.clone()]).unwrap_err(),
        SnapshotError::InvalidKey { index: 0 }
    );
    assert_eq!(
        StateDB::from_hex_entries(&vec![good.clone(), good.clone(), short]).unwrap_err(),
        SnapshotError::InvalidKeyLength { index: 2, got: 31 }
    );
}

#[test]
fn snapshot_reads_upper_case_and_takes_the_last_of_a_key() {
    let loaded = StateDB::from_hex_entries(&vec![
        ("AB".repeat(32), AccountState { balance: 1, nonce: 1 }),
        ("ab".repeat(32), AccountState { balance: 2, nonce: 5 }),
    ])
    .unwrap();
    assert_eq!(loaded.account_count(), 1);
    assert_eq!(
        loaded.get_account(&[0xabu8; 32]),
        Some(&AccountState { balance: 2, nonce: 5 })
    );
}
