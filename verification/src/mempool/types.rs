//! The errors and the configuration of the mempool, and a transaction that
//! waits in it.

use vstd::prelude::*;
use vstd::string::StringExecFns;
use crate::bft::block::Transaction;
use crate::text::{decimal_text, decimal_to_string};

verus! {

/// Why the mempool refused a transaction.
#[derive(Debug, Clone, PartialEq, Eq)]
pub enum MempoolError {
    DuplicateTransaction,
    PoolFull,
    InvalidSignature,
    NonceTooLow { expected: u64, got: u64 },
    InsufficientBalance,
    InvalidTransaction(String),
}

/// The text that describes a mempool error.
pub open spec fn mempool_error_text(error: MempoolError) -> Seq<char> {
    match error {
        MempoolError::DuplicateTransaction => "duplicate transaction"@,
        MempoolError::PoolFull => "mempool is full"@,
        MempoolError::InvalidSignature => "invalid signature"@,
        MempoolError::NonceTooLow { expected, got } => "nonce too low: expected "@ + decimal_text(
            expected as nat,
        ) + ", got "@ + decimal_text(got as nat),
        MempoolError::InsufficientBalance => "insufficient balance"@,
        MempoolError::InvalidTransaction(reason) => "invalid transaction: "@ + reason@,
    }
}

impl MempoolError {
    /// The text that describes the error.
    pub fn to_string(&self) -> (text: String)
        ensures
            text@ == mempool_error_text(*self),
    {
        match self {
            MempoolError::DuplicateTransaction => String::from_str("duplicate transaction"),
            MempoolError::PoolFull => String::from_str("mempool is full"),
            MempoolError::InvalidSignature => String::from_str("invalid signature"),
            MempoolError::NonceTooLow { expected, got } => {
                let mut text = String::from_str("nonce too low: expected ");
                text.append(decimal_to_string(*expected).as_str());
                text.append(", got ");
                text.append(decimal_to_string(*got).as_str());
                text
            },
            MempoolError::InsufficientBalance => String::from_str("insufficient balance"),
            MempoolError::InvalidTransaction(reason) => {
                let mut text = String::from_str("invalid transaction: ");
                text.append(reason.as_str());
                text
            },
        }
    }
}

/// The limits of the transaction pool.
#[derive(Debug, Clone, Copy, PartialEq, Eq, Structural)]
pub struct MempoolConfig {
    /// The largest number of transactions in the pool.
    pub max_size: usize,
    /// The largest number of pending transactions of one account.
    pub max_tx_per_account: usize,
}

impl Default for MempoolConfig {
    fn default() -> (config: Self)
        ensures
            config == (MempoolConfig { max_size: 10_000, max_tx_per_account: 100 }),
    {
        MempoolConfig { max_size: 10_000, max_tx_per_account: 100 }
    }
}

/// A transaction that waits in the mempool.
#[derive(Debug, Clone)]
pub struct PendingTransaction {
    pub tx: Transaction,
    /// When the transaction came in.
    pub added_at: u64,
    /// What the transaction is ordered by: the higher, the earlier.
    pub fee_priority: u64,
}

impl PendingTransaction {
    /// Wraps a transaction; its priority is its amount.
    pub fn new(tx: Transaction, added_at: u64) -> (pending: Self)
        ensures
            pending.tx == tx,
            pending.added_at == added_at,
            pending.fee_priority == tx.amount,
    {
        let fee_priority = tx.amount;
        PendingTransaction { tx, added_at, fee_priority }
    }
}

} // verus!
