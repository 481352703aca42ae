//! The account database: balances and nonces by public key, transfers with
//! all-or-nothing semantics, and a state root that does not depend on the
//! order in which accounts were inserted.

use vstd::prelude::*;
use vstd::string::StringExecFns;
use vstd::utf8::encode_utf8;
use crate::bft::block::{Transaction, TransactionView, transaction_views};
use crate::bytes::{append_bytes, copy_range};
use crate::text::{decimal_text, decimal_to_string, json_byte_array, json_of_bytes};
use crate::crypto::{
    from_hex,
    hex_bytes,
    hex_encode,
    hex_text,
    lemma_hex_roundtrip,
    sha256,
    sha256_digest,
};
use crate::keymap::{
    KeyMap,
    entries_map,
    has_key,
    lemma_sorted_entries_unique,
    strictly_sorted,
};
use crate::keys::{PublicKey, keys_equal};
use crate::state::accounts::AccountState;
use crate::state::types::{SnapshotError, StateError, TransactionReceipt, state_error_text};

verus! {

/// The accounts of a database as a map from key bytes to account states.
pub type Accounts = Map<Seq<u8>, AccountState>;

/// A transfer as plain values.
pub struct Transfer {
    pub from: Seq<u8>,
    pub to: Seq<u8>,
    pub amount: u64,
    pub nonce: u64,
}

/// The account that a key stands for: the stored one, or an empty account.
pub open spec fn account_or_default(accounts: Accounts, key: Seq<u8>) -> AccountState {
    if accounts.dom().contains(key) {
        accounts[key]
    } else {
        AccountState { balance: 0, nonce: 0 }
    }
}

/// What a transfer does to the accounts. It is checked in this order: the
/// sender exists, the sender's nonce is the expected one, the sender's
/// balance covers the amount; then neither the sender's nonce nor the
/// receiver's balance may overflow. A failed transfer gives an error and no
/// new state. A transfer to oneself moves nothing but still takes a nonce.
pub open spec fn transfer_outcome(accounts: Accounts, t: Transfer) -> Result<Accounts, StateError> {
    if !accounts.dom().contains(t.from) {
        Err(StateError::AccountNotFound)
    } else {
        let sender = accounts[t.from];
        let receiver = account_or_default(accounts, t.to);
        if sender.nonce != t.nonce {
            Err(StateError::InvalidNonce { expected: sender.nonce, got: t.nonce })
        } else if sender.balance < t.amount {
            Err(StateError::InsufficientBalance { needed: t.amount, available: sender.balance })
        } else if sender.nonce == u64::MAX {
            Err(StateError::Overflow)
        } else if t.from == t.to {
            Ok(
                accounts.insert(
                    t.from,
                    AccountState { balance: sender.balance, nonce: (sender.nonce + 1) as u64 },
                ),
            )
        } else if receiver.balance + t.amount > u64::MAX {
            Err(StateError::Overflow)
        } else {
            Ok(
                accounts.insert(
                    t.from,
                    AccountState {
                        balance: (sender.balance - t.amount) as u64,
                        nonce: (sender.nonce + 1) as u64,
                    },
                ).insert(
                    t.to,
                    AccountState {
                        balance: (receiver.balance + t.amount) as u64,
                        nonce: receiver.nonce,
                    },
                ),
            )
        }
    }
}

/// The transfer that a transaction asks for.
pub open spec fn transfer_of(tx: TransactionView) -> Transfer {
    Transfer { from: tx.from, to: tx.to, amount: tx.amount, nonce: tx.nonce }
}

/// The accounts after a transfer was tried: changed if it succeeded, as
/// before if it failed.
pub open spec fn accounts_after(accounts: Accounts, t: Transfer) -> Accounts {
    match transfer_outcome(accounts, t) {
        Ok(next) => next,
        Err(_) => accounts,
    }
}

/// The accounts after the transfers of `transfers` were tried in order. A
/// failed one changes nothing and does not undo those before it.
pub open spec fn accounts_after_all(accounts: Accounts, transfers: Seq<Transfer>) -> Accounts
    decreases transfers.len(),
{
    if transfers.len() == 0 {
        accounts
    } else {
        accounts_after(accounts_after_all(accounts, transfers.drop_last()), transfers.last())
    }
}

/// How many of `transfers`, tried in order, succeed.
pub open spec fn successes(accounts: Accounts, transfers: Seq<Transfer>) -> nat
    decreases transfers.len(),
{
    if transfers.len() == 0 {
        0
    } else {
        let before = accounts_after_all(accounts, transfers.drop_last());
        successes(accounts, transfers.drop_last()) + (if transfer_outcome(
            before,
            transfers.last(),
        ) is Ok {
            1nat
        } else {
            0nat
        })
    }
}

/// How many of `transfers`, tried in order, succeed with `sender` as sender.
pub open spec fn successes_from(accounts: Accounts, transfers: Seq<Transfer>, sender: Seq<u8>) -> nat
    decreases transfers.len(),
{
    if transfers.len() == 0 {
        0
    } else {
        let before = accounts_after_all(accounts, transfers.drop_last());
        successes_from(accounts, transfers.drop_last(), sender) + (if transfers.last().from
            == sender && transfer_outcome(before, transfers.last()) is Ok {
            1nat
        } else {
            0nat
        })
    }
}

/// The transfers that a list of transactions asks for.
pub open spec fn transfers_of(txs: Seq<TransactionView>) -> Seq<Transfer> {
    Seq::new(txs.len(), |i: int| transfer_of(txs[i]))
}

/// The JSON text of an account: an object with the balance and the nonce,
/// in compact form.
pub open spec fn account_json(account: AccountState) -> Seq<char> {
    "{\"balance\":"@ + decimal_text(account.balance as nat) + ",\"nonce\":"@ + decimal_text(
        account.nonce as nat,
    ) + "}"@
}

/// The canonical encoding of an account: the bytes of its JSON text.
pub open spec fn account_encoding(account: AccountState) -> Seq<u8> {
    encode_utf8(account_json(account))
}

/// What is hashed of a transaction for its receipt: the bytes of its JSON
/// text, an object with the six fields in compact form, each byte string
/// as an array of numbers.
pub open spec fn receipt_preimage(tx: TransactionView) -> Seq<u8> {
    encode_utf8("{\"from\":"@) + json_byte_array(tx.from) + encode_utf8(",\"to\":"@)
        + json_byte_array(tx.to) + encode_utf8(",\"amount\":"@) + encode_utf8(
        decimal_text(tx.amount as nat),
    ) + encode_utf8(",\"nonce\":"@) + encode_utf8(decimal_text(tx.nonce as nat)) + encode_utf8(
        ",\"signature\":"@,
    ) + json_byte_array(tx.signature) + encode_utf8(",\"data\":"@) + json_byte_array(tx.data)
        + encode_utf8("}"@)
}

/// The hash of a transaction in its receipt: SHA-256 over its JSON text.
pub open spec fn receipt_hash(tx: TransactionView) -> Seq<u8> {
    sha256_digest(receipt_preimage(tx))
}

/// Appends the bytes of `text` to `buf`.
fn append_text(buf: &mut Vec<u8>, text: &str)
    ensures
        final(buf)@ == old(buf)@ + encode_utf8(text@),
{
    append_bytes(buf, text.as_bytes());
}

/// Appends the JSON array of `bytes` to `buf`.
fn append_json_bytes(buf: &mut Vec<u8>, bytes: &[u8])
    ensures
        final(buf)@ == old(buf)@ + json_byte_array(bytes@),
{
    let copy = copy_range(bytes, 0, bytes.len());
    assert(copy@ =~= bytes@);
    let json = json_of_bytes(&copy);
    append_bytes(buf, json.as_slice());
}

/// The hash of a transaction for its receipt.
pub fn hash_for_receipt(tx: &Transaction) -> (hash: [u8; 32])
    ensures
        hash@ == receipt_hash(tx@),
{
    let mut buf: Vec<u8> = Vec::new();
    append_text(&mut buf, "{\"from\":");
    append_json_bytes(&mut buf, tx.from.as_slice());
    append_text(&mut buf, ",\"to\":");
    append_json_bytes(&mut buf, tx.to.as_slice());
    append_text(&mut buf, ",\"amount\":");
    append_text(&mut buf, decimal_to_string(tx.amount).as_str());
    append_text(&mut buf, ",\"nonce\":");
    append_text(&mut buf, decimal_to_string(tx.nonce).as_str());
    append_text(&mut buf, ",\"signature\":");
    append_json_bytes(&mut buf, tx.signature.as_slice());
    append_text(&mut buf, ",\"data\":");
    append_json_bytes(&mut buf, tx.data.as_slice());
    append_text(&mut buf, "}");
    assert(buf@ =~= receipt_preimage(tx@));
    sha256(buf.as_slice())
}

/// What is hashed for the state root: for each entry in order, the key and
/// the encoding of the account.
pub open spec fn root_preimage(entries: Seq<(PublicKey, AccountState)>) -> Seq<u8>
    decreases entries.len(),
{
    if entries.len() == 0 {
        Seq::<u8>::empty()
    } else {
        root_preimage(entries.drop_last()) + entries.last().0@ + account_encoding(entries.last().1)
    }
}

/// The sum of the balances of a sequence of entries.
pub open spec fn total_balance(entries: Seq<(PublicKey, AccountState)>) -> nat
    decreases entries.len(),
{
    if entries.len() == 0 {
        0
    } else {
        total_balance(entries.drop_last()) + entries.last().1.balance as nat
    }
}

proof fn lemma_total_balance_prefix(entries: Seq<(PublicKey, AccountState)>, n: int)
    requires
        0 <= n <= entries.len(),
    ensures
        total_balance(entries.subrange(0, n)) <= total_balance(entries),
    decreases entries.len() - n,
{
    if n == entries.len() {
        assert(entries.subrange(0, n) =~= entries);
    } else {
        lemma_total_balance_prefix(entries, n + 1);
        assert(entries.subrange(0, n + 1).drop_last() =~= entries.subrange(0, n));
    }
}

/// Whether a receipt is that of a transaction with the given result: it
/// carries the transaction's hash and no fee, says whether the transfer
/// succeeded, and holds the text of the error where it failed.
pub open spec fn receipt_matches(
    receipt: TransactionReceipt,
    tx: TransactionView,
    outcome: Result<Accounts, StateError>,
) -> bool {
    &&& receipt.tx_hash@ == receipt_hash(tx)
    &&& receipt.fee_paid == 0
    &&& receipt.success == (outcome is Ok)
    &&& match outcome {
        Ok(_) => receipt.error is None,
        Err(error) => receipt.error matches Some(text) && text@ == state_error_text(error),
    }
}

/// Whether `snapshot` lists the accounts of `entries` in their order, each
/// under the lower-case hex text of its key.
pub open spec fn is_snapshot_of(
    snapshot: Seq<(String, AccountState)>,
    entries: Seq<(PublicKey, AccountState)>,
) -> bool {
    &&& snapshot.len() == entries.len()
    &&& forall|i: int|
        0 <= i < entries.len() ==> (#[trigger] snapshot[i]).0@ == hex_text(entries[i].0@)
            && snapshot[i].1 == entries[i].1
}

/// The accounts that the first `n` entries of a snapshot stand for: each
/// key is read from its hex text and must have thirty-two bytes, and a key
/// that is listed again replaces what was listed before.
pub open spec fn snapshot_accounts(snapshot: Seq<(String, AccountState)>, n: int) -> Result<
    Accounts,
    SnapshotError,
>
    decreases n,
{
    if n <= 0 {
        Ok(Map::<Seq<u8>, AccountState>::empty())
    } else {
        match snapshot_accounts(snapshot, n - 1) {
            Err(error) => Err(error),
            Ok(accounts) => match hex_bytes(snapshot[n - 1].0@) {
                None => Err(SnapshotError::InvalidKey { index: (n - 1) as usize }),
                Some(key) => if key.len() != 32 {
                    Err(
                        SnapshotError::InvalidKeyLength {
                            index: (n - 1) as usize,
                            got: key.len() as usize,
                        },
                    )
                } else {
                    Ok(accounts.insert(key, snapshot[n - 1].1))
                },
            },
        }
    }
}

/// The account state database.
#[derive(Debug, Clone)]
pub struct StateDB {
    accounts: KeyMap<AccountState>,
}

impl StateDB {
    /// The accounts by key.
    pub closed spec fn view(self) -> Accounts {
        self.accounts@
    }

    /// The accounts in ascending order of their keys.
    pub closed spec fn entries(self) -> Seq<(PublicKey, AccountState)> {
        self.accounts.entries()
    }

    /// The accounts are held in strictly ascending key order, each key once.
    pub closed spec fn wf(self) -> bool {
        self.accounts.wf()
    }

    /// The state root: SHA-256 over the accounts in ascending key order,
    /// each as its key followed by its encoding.
    pub open spec fn state_root(self) -> Seq<u8> {
        sha256_digest(root_preimage(self.entries()))
    }

    /// The entries are sorted by key and stand for the map of accounts.
    pub proof fn lemma_entries(self)
        requires
            self.wf(),
        ensures
            strictly_sorted(self.entries()),
            self@ == entries_map(self.entries()),
    {
    }

    /// An empty database.
    pub fn new() -> (db: Self)
        ensures
            db.wf(),
            db@ == Map::<Seq<u8>, AccountState>::empty(),
            db.entries().len() == 0,
    {
        let db = StateDB { accounts: KeyMap::new() };
        assert(db@ =~= Map::<Seq<u8>, AccountState>::empty());
        db
    }

    /// The account of `pubkey`.
    pub fn get_account(&self, pubkey: &[u8; 32]) -> (account: Option<&AccountState>)
        requires
            self.wf(),
        ensures
            account.is_some() == self@.dom().contains(pubkey@),
            account matches Some(a) ==> *a == self@[pubkey@],
    {
        self.accounts.get(pubkey)
    }

    /// The account of `pubkey`, to be changed in place.
    pub fn get_account_mut(&mut self, pubkey: &[u8; 32]) -> (account: Option<&mut AccountState>)
        requires
            old(self).wf(),
        ensures
            final(self).wf(),
            account.is_some() == old(self)@.dom().contains(pubkey@),
            match account {
                Some(a) => *a == old(self)@[pubkey@] && final(self)@ == old(self)@.insert(
                    pubkey@,
                    *final(a),
                ),
                None => final(self)@ == old(self)@,
            },
    {
        self.accounts.get_mut(pubkey)
    }

    /// The account of `pubkey`, which is created empty where there is none.
    pub fn get_or_create_account(&mut self, pubkey: &[u8; 32]) -> (account: &mut AccountState)
        requires
            old(self).wf(),
        ensures
            final(self).wf(),
            *account == account_or_default(old(self)@, pubkey@),
            final(self)@ == old(self)@.insert(pubkey@, *final(account)),
    {
        if !self.accounts.contains_key(pubkey) {
            self.accounts.insert(*pubkey, AccountState::default());
        }
        let ghost mid = self.accounts@;
        proof {
            assert(mid.dom().contains(pubkey@));
            assert(self.accounts.contains(pubkey@));
            assert(mid[pubkey@] == account_or_default(old(self)@, pubkey@));
            assert(self.accounts.value(pubkey@) == mid[pubkey@]);
        }
        let account = self.accounts.get_mut(pubkey).unwrap();
        proof {
            assert(mid.insert(pubkey@, *final(account)) =~= old(self)@.insert(
                pubkey@,
                *final(account),
            ));
        }
        account
    }

    /// Stores `state` as the account of `pubkey`.
    pub fn set_account(&mut self, pubkey: [u8; 32], state: AccountState)
        requires
            old(self).wf(),
        ensures
            final(self).wf(),
            final(self)@ == old(self)@.insert(pubkey@, state),
    {
        self.accounts.insert(pubkey, state);
    }

    /// Applies one transfer. The checks come in a fixed order and nothing is
    /// changed before all of them have passed, so an error leaves the
    /// database as it was: the sender must exist, its nonce must be
    /// `expected_nonce`, its balance must cover `amount`, its nonce must not
    /// be the largest there is, and the receiver's balance must have room
    /// for the amount. On success the sender is debited and
    /// its nonce grows by one, and the receiver, created if absent, is
    /// credited; a transfer to oneself only takes the nonce.
    pub fn apply_transfer(
        &mut self,
        from: &[u8; 32],
        to: &[u8; 32],
        amount: u64,
        expected_nonce: u64,
    ) -> (r: Result<(), StateError>)
        requires
            old(self).wf(),
        ensures
            final(self).wf(),
            match transfer_outcome(
                old(self)@,
                Transfer { from: from@, to: to@, amount, nonce: expected_nonce },
            ) {
                Ok(next) => r is Ok && final(self)@ == next,
                Err(error) => r == Err::<(), StateError>(error) && final(self)@ == old(self)@,
            },
    {
        let sender = match self.accounts.get(from) {
            Some(account) => *account,
            None => {
                return Err(StateError::AccountNotFound);
            },
        };
        if sender.nonce != expected_nonce {
            return Err(StateError::InvalidNonce { expected: sender.nonce, got: expected_nonce });
        }
        if sender.balance < amount {
            return Err(
                StateError::InsufficientBalance { needed: amount, available: sender.balance },
            );
        }
        if sender.nonce == u64::MAX {
            return Err(StateError::Overflow);
        }
        if keys_equal(from, to) {
            self.accounts.insert(
                *from,
                AccountState { balance: sender.balance, nonce: sender.nonce + 1 },
            );
            return Ok(());
        }
        let receiver = match self.accounts.get(to) {
            Some(account) => *account,
            None => AccountState::default(),
        };
        let credited = match receiver.balance.checked_add(amount) {
            Some(sum) => sum,
            None => {
                return Err(StateError::Overflow);
            },
        };
        self.accounts.insert(
            *from,
            AccountState { balance: sender.balance - amount, nonce: sender.nonce + 1 },
        );
        self.accounts.insert(*to, AccountState { balance: credited, nonce: receiver.nonce });
        Ok(())
    }

    /// Applies the transactions of a block in order and returns one receipt
    /// for each. A failed transaction leaves the state as it was before it
    /// and does not undo the successful ones before it.
    pub fn apply_block(&mut self, transactions: &[Transaction]) -> (receipts: Vec<
        TransactionReceipt,
    >)
        requires
            old(self).wf(),
        ensures
            final(self).wf(),
            final(self)@ == accounts_after_all(
                old(self)@,
                transfers_of(transaction_views(transactions@)),
            ),
            receipts@.len() == transactions@.len(),
            forall|i: int|
                0 <= i < transactions@.len() ==> receipt_matches(
                    #[trigger] receipts@[i],
                    transactions@[i]@,
                    transfer_outcome(
                        accounts_after_all(
                            old(self)@,
                            transfers_of(transaction_views(transactions@)).subrange(0, i),
                        ),
                        transfer_of(transactions@[i]@),
                    ),
                ),
    {
        let ghost start = self@;
        let ghost all = transfers_of(transaction_views(transactions@));
        let mut receipts: Vec<TransactionReceipt> = Vec::new();
        let mut i: usize = 0;
        let count: usize = transactions.len();
        proof {
            assert(all.subrange(0, 0) =~= Seq::<Transfer>::empty());
        }
        while i < count
            invariant
                i <= count,
                count == transactions@.len(),
                all == transfers_of(transaction_views(transactions@)),
                self.wf(),
                self@ == accounts_after_all(start, all.subrange(0, i as int)),
                receipts@.len() == i,
                forall|j: int|
                    0 <= j < i ==> receipt_matches(
                        #[trigger] receipts@[j],
                        transactions@[j]@,
                        transfer_outcome(
                            accounts_after_all(start, all.subrange(0, j)),
                            transfer_of(transactions@[j]@),
                        ),
                    ),
            decreases count - i,
        {
            let tx = &transactions[i];
            let ghost before = self@;
            let ghost t = transfer_of(tx@);
            proof {
                assert(all[i as int] == t);
                assert(all.subrange(0, i + 1).drop_last() =~= all.subrange(0, i as int));
                assert(all.subrange(0, i + 1).last() == t);
            }
            let tx_hash = hash_for_receipt(tx);
            match self.apply_transfer(&tx.from, &tx.to, tx.amount, tx.nonce) {
                Ok(()) => {
                    receipts.push(
                        TransactionReceipt { tx_hash, success: true, fee_paid: 0, error: None },
                    );
                },
                Err(error) => {
                    receipts.push(
                        TransactionReceipt {
                            tx_hash,
                            success: false,
                            fee_paid: 0,
                            error: Some(error.to_string()),
                        },
                    );
                },
            }
            proof {
                assert(self@ == accounts_after(before, t));
            }
            i += 1;
        }
        proof {
            assert(all.subrange(0, i as int) =~= all);
        }
        receipts
    }

    /// The state root: SHA-256 over the accounts in ascending key order, so
    /// that it does not depend on the order of insertion.
    pub fn compute_state_root(&self) -> (root: [u8; 32])
        requires
            self.wf(),
        ensures
            root@ == self.state_root(),
    {
        let mut buf: Vec<u8> = Vec::new();
        let mut i: usize = 0;
        while i < self.accounts.len()
            invariant
                i <= self.accounts.entries().len(),
                buf@ == root_preimage(self.accounts.entries().subrange(0, i as int)),
            decreases self.accounts.entries().len() - i,
        {
            proof {
                assert(self.accounts.entries().subrange(0, i + 1).drop_last()
                    =~= self.accounts.entries().subrange(0, i as int));
            }
            let key = self.accounts.key_at(i);
            let account = self.accounts.value_at(i);
            append_bytes(&mut buf, key.as_slice());
            let mut json = String::from_str("{\"balance\":");
            json.append(decimal_to_string(account.balance).as_str());
            json.append(",\"nonce\":");
            json.append(decimal_to_string(account.nonce).as_str());
            json.append("}");
            assert(json@ =~= account_json(*account));
            append_text(&mut buf, json.as_str());
            assert(buf@ =~= root_preimage(self.accounts.entries().subrange(0, i + 1)));
            i += 1;
        }
        proof {
            assert(self.accounts.entries().subrange(0, i as int) =~= self.accounts.entries());
        }
        sha256(buf.as_slice())
    }

    /// How many accounts the database holds.
    pub fn account_count(&self) -> (n: usize)
        ensures
            n == self.entries().len(),
    {
        self.accounts.len()
    }

    /// The sum of all balances.
    pub fn total_supply(&self) -> (total: u64)
        requires
            total_balance(self.entries()) <= u64::MAX,
        ensures
            total == total_balance(self.entries()),
    {
        let mut total: u64 = 0;
        let mut i: usize = 0;
        while i < self.accounts.len()
            invariant
                i <= self.accounts.entries().len(),
                total == total_balance(self.accounts.entries().subrange(0, i as int)),
                total_balance(self.accounts.entries()) <= u64::MAX,
            decreases self.accounts.entries().len() - i,
        {
            proof {
                assert(self.accounts.entries().subrange(0, i + 1).drop_last()
                    =~= self.accounts.entries().subrange(0, i as int));
                lemma_total_balance_prefix(self.accounts.entries(), i + 1);
            }
            total = total + self.accounts.value_at(i).balance;
            i += 1;
        }
        proof {
            assert(self.accounts.entries().subrange(0, i as int) =~= self.accounts.entries());
        }
        total
    }

    /// The sum of all balances, or nothing where it does not fit in 64 bits.
    pub fn checked_total_supply(&self) -> (total: Option<u64>)
        ensures
            total == (if total_balance(self.entries()) <= u64::MAX {
                Some(total_balance(self.entries()) as u64)
            } else {
                None
            }),
    {
        let mut total: u64 = 0;
        let mut i: usize = 0;
        while i < self.accounts.len()
            invariant
                i <= self.accounts.entries().len(),
                total == total_balance(self.accounts.entries().subrange(0, i as int)),
            decreases self.accounts.entries().len() - i,
        {
            proof {
                assert(self.accounts.entries().subrange(0, i + 1).drop_last()
                    =~= self.accounts.entries().subrange(0, i as int));
                lemma_total_balance_prefix(self.accounts.entries(), i + 1);
            }
            match total.checked_add(self.accounts.value_at(i).balance) {
                Some(sum) => {
                    total = sum;
                },
                None => {
                    return None;
                },
            }
            i += 1;
        }
        proof {
            assert(self.accounts.entries().subrange(0, i as int) =~= self.accounts.entries());
        }
        Some(total)
    }
}

impl StateDB {
    /// The accounts in ascending key order, each under the lower-case hex
    /// text of its key: what a snapshot file holds.
    pub fn to_hex_entries(&self) -> (snapshot: Vec<(String, AccountState)>)
        ensures
            is_snapshot_of(snapshot@, self.entries()),
    {
        let mut snapshot: Vec<(String, AccountState)> = Vec::new();
        let mut i: usize = 0;
        while i < self.accounts.len()
            invariant
                i <= self.accounts.entries().len(),
                snapshot@.len() == i,
                forall|j: int|
                    0 <= j < i ==> (#[trigger] snapshot@[j]).0@ == hex_text(
                        self.accounts.entries()[j].0@,
                    ) && snapshot@[j].1 == self.accounts.entries()[j].1,
            decreases self.accounts.entries().len() - i,
        {
            let key = self.accounts.key_at(i);
            let account = *self.accounts.value_at(i);
            snapshot.push((hex_encode(key.as_slice()), account));
            i += 1;
        }
        snapshot
    }

    /// The database that a snapshot stands for. Fails for a key that is no
    /// hex text or has not thirty-two bytes.
    pub fn from_hex_entries(snapshot: &Vec<(String, AccountState)>) -> (r: Result<
        StateDB,
        SnapshotError,
    >)
        ensures
            match snapshot_accounts(snapshot@, snapshot@.len() as int) {
                Ok(accounts) => r matches Ok(db) && db.wf() && db@ == accounts,
                Err(error) => r matches Err(e) && e == error,
            },
    {
        let mut db = StateDB::new();
        let mut i: usize = 0;
        while i < snapshot.len()
            invariant
                i <= snapshot@.len(),
                db.wf(),
                snapshot_accounts(snapshot@, i as int) == Ok::<Accounts, SnapshotError>(db@),
            decreases snapshot@.len() - i,
        {
            let bytes = match from_hex(snapshot[i].0.as_str()) {
                Some(bytes) => bytes,
                None => {
                    proof {
                        lemma_snapshot_error_stays(snapshot@, i + 1, snapshot@.len() as int);
                    }
                    return Err(SnapshotError::InvalidKey { index: i });
                },
            };
            if bytes.len() != 32 {
                proof {
                    lemma_snapshot_error_stays(snapshot@, i + 1, snapshot@.len() as int);
                }
                return Err(SnapshotError::InvalidKeyLength { index: i, got: bytes.len() });
            }
            let key = crate::bytes::read_array32(bytes.as_slice(), 0);
            assert(key@ =~= bytes@);
            db.set_account(key, snapshot[i].1);
            i += 1;
        }
        Ok(db)
    }
}

/// An error in the first `n` entries of a snapshot is the error of the
/// whole snapshot.
pub proof fn lemma_snapshot_error_stays(snapshot: Seq<(String, AccountState)>, n: int, more: int)
    requires
        0 <= n <= more,
        snapshot_accounts(snapshot, n) is Err,
    ensures
        snapshot_accounts(snapshot, more) == snapshot_accounts(snapshot, n),
    decreases more - n,
{
    if n < more {
        lemma_snapshot_error_stays(snapshot, n, more - 1);
    }
}

/// The snapshot of a database stands for the accounts of the database: a
/// database that is written out and read in again holds the same accounts,
/// and so has the same state root.
pub proof fn law_snapshot_roundtrip(db: StateDB, snapshot: Seq<(String, AccountState)>)
    requires
        db.wf(),
        is_snapshot_of(snapshot, db.entries()),
    ensures
        snapshot_accounts(snapshot, snapshot.len() as int) == Ok::<Accounts, SnapshotError>(db@),
{
    db.lemma_entries();
    lemma_snapshot_prefix(db.entries(), snapshot, snapshot.len() as int);
    assert(db.entries().subrange(0, snapshot.len() as int) =~= db.entries());
}

/// A database that is read in from the snapshot of another has the state
/// root of that other database.
pub proof fn law_snapshot_keeps_state_root(
    db: StateDB,
    snapshot: Seq<(String, AccountState)>,
    loaded: StateDB,
)
    requires
        db.wf(),
        loaded.wf(),
        is_snapshot_of(snapshot, db.entries()),
        snapshot_accounts(snapshot, snapshot.len() as int) == Ok::<Accounts, SnapshotError>(
            loaded@,
        ),
    ensures
        loaded.state_root() == db.state_root(),
{
    law_snapshot_roundtrip(db, snapshot);
    law_state_root_ignores_insertion_order(loaded, db);
}

proof fn lemma_snapshot_prefix(
    entries: Seq<(PublicKey, AccountState)>,
    snapshot: Seq<(String, AccountState)>,
    n: int,
)
    requires
        strictly_sorted(entries),
        is_snapshot_of(snapshot, entries),
        0 <= n <= entries.len(),
    ensures
        snapshot_accounts(snapshot, n) == Ok::<Accounts, SnapshotError>(
            entries_map(entries.subrange(0, n)),
        ),
    decreases n,
{
    if n == 0 {
        assert(entries_map(entries.subrange(0, 0)) =~= Map::<Seq<u8>, AccountState>::empty());
    } else {
        lemma_snapshot_prefix(entries, snapshot, n - 1);
        let before = entries.subrange(0, n - 1);
        let now = entries.subrange(0, n);
        let entry = entries[n - 1];
        lemma_hex_roundtrip(entry.0@);
        assert(snapshot[n - 1].0@ == hex_text(entry.0@));
        assert(strictly_sorted(before)) by {
            assert forall|a: int, b: int| 0 <= a < b < before.len() implies crate::keys::lex_lt(
                #[trigger] before[a].0@,
                #[trigger] before[b].0@,
            ) by {
                assert(crate::keys::lex_lt(entries[a].0@, entries[b].0@));
            }
        }
        assert(strictly_sorted(now)) by {
            assert forall|a: int, b: int| 0 <= a < b < now.len() implies crate::keys::lex_lt(
                #[trigger] now[a].0@,
                #[trigger] now[b].0@,
            ) by {
                assert(crate::keys::lex_lt(entries[a].0@, entries[b].0@));
            }
        }
        assert(!has_key(before, entry.0@)) by {
            if has_key(before, entry.0@) {
                let w = crate::keymap::index_of(before, entry.0@);
                assert(crate::keys::lex_lt(entries[w].0@, entries[n - 1].0@));
                crate::keys::lemma_lex_asymmetric(entries[w].0@, entries[n - 1].0@);
            }
        }
        assert(now =~= before.insert(n - 1, entry));
        KeyMap::<AccountState>::lemma_insert_view(before, now, n - 1, entry.0, entry.1);
    }
}

impl Default for StateDB {
    fn default() -> (db: Self)
        ensures
            db.wf(),
            db@ == Map::<Seq<u8>, AccountState>::empty(),
            db.entries().len() == 0,
    {
        StateDB::new()
    }
}

/// Conservation: a successful transfer between two different accounts
/// leaves the sum of their balances as it was.
pub proof fn law_transfer_conserves_balance(accounts: Accounts, t: Transfer)
    requires
        t.from != t.to,
        transfer_outcome(accounts, t) is Ok,
    ensures
        ({
            let next = transfer_outcome(accounts, t)->Ok_0;
            next[t.from].balance + next[t.to].balance == accounts[t.from].balance
                + account_or_default(accounts, t.to).balance
        }),
{
}

/// A transfer between two different accounts succeeds where the sender
/// exists with the expected nonce, which is not the largest there is, its
/// balance covers the amount, and the receiver's balance has room for it.
/// The sender then has the amount less and the receiver the amount more, so
/// that the sum of the two balances is as before, and every other account
/// is as it was.
pub proof fn law_transfer_succeeds(accounts: Accounts, t: Transfer)
    requires
        t.from != t.to,
        accounts.dom().contains(t.from),
        accounts[t.from].nonce == t.nonce,
        accounts[t.from].nonce < u64::MAX,
        accounts[t.from].balance >= t.amount,
        account_or_default(accounts, t.to).balance + t.amount <= u64::MAX,
    ensures
        transfer_outcome(accounts, t) is Ok,
        ({
            let next = transfer_outcome(accounts, t)->Ok_0;
            &&& next[t.from].balance == accounts[t.from].balance - t.amount
            &&& next[t.from].nonce == t.nonce + 1
            &&& next[t.to].balance == account_or_default(accounts, t.to).balance + t.amount
            &&& next[t.to].nonce == account_or_default(accounts, t.to).nonce
            &&& next[t.from].balance + next[t.to].balance == accounts[t.from].balance
                + account_or_default(accounts, t.to).balance
            &&& forall|key: Seq<u8>|
                key != t.from && key != t.to ==> (next.dom().contains(key)
                    <==> accounts.dom().contains(key)) && (accounts.dom().contains(key)
                    ==> #[trigger] next[key] == accounts[key])
        }),
{
}

/// A successful transfer takes exactly one nonce of the sender, and a failed
/// one none.
pub proof fn law_transfer_takes_one_nonce(accounts: Accounts, t: Transfer)
    requires
        accounts.dom().contains(t.from),
    ensures
        transfer_outcome(accounts, t) is Ok ==> accounts_after(accounts, t)[t.from].nonce
            == accounts[t.from].nonce + 1,
        transfer_outcome(accounts, t) is Err ==> accounts_after(accounts, t) == accounts,
{
}

/// After a sequence of transfers the nonce of an account is its first nonce
/// plus the number of successful transfers that it sent.
pub proof fn law_nonce_counts_successes(accounts: Accounts, transfers: Seq<Transfer>, sender: Seq<u8>)
    requires
        accounts.dom().contains(sender),
    ensures
        accounts_after_all(accounts, transfers).dom().contains(sender),
        accounts_after_all(accounts, transfers)[sender].nonce == accounts[sender].nonce
            + successes_from(accounts, transfers, sender),
        successes_from(accounts, transfers, sender) <= transfers.len(),
    decreases transfers.len(),
{
    if transfers.len() > 0 {
        law_nonce_counts_successes(accounts, transfers.drop_last(), sender);
    }
}

/// Two databases that hold the same accounts have the same state root,
/// whatever the order in which the accounts were inserted.
pub proof fn law_state_root_ignores_insertion_order(a: StateDB, b: StateDB)
    requires
        a.wf(),
        b.wf(),
        a@ == b@,
    ensures
        a.entries() == b.entries(),
        a.state_root() == b.state_root(),
{
    a.lemma_entries();
    b.lemma_entries();
    lemma_sorted_entries_unique(a.entries(), b.entries());
}

/// A transfer of amount zero is accepted where sender and nonce are right,
/// and still takes a nonce.
pub proof fn law_zero_amount_takes_nonce(accounts: Accounts, t: Transfer)
    requires
        accounts.dom().contains(t.from),
        accounts[t.from].nonce == t.nonce,
        accounts[t.from].nonce < u64::MAX,
        t.amount == 0,
    ensures
        transfer_outcome(accounts, t) is Ok,
        accounts_after(accounts, t)[t.from].nonce == t.nonce + 1,
{
}

} // verus!
