//! The errors of a state transition and the receipt of an executed transaction.

use vstd::prelude::*;
use vstd::string::StringExecFns;
use crate::text::{decimal_text, decimal_to_string};

verus! {

/// Why a state transition failed.
#[derive(Debug, Clone, Copy, PartialEq, Eq, Structural)]
pub enum StateError {
    InsufficientBalance { needed: u64, available: u64 },
    InvalidNonce { expected: u64, got: u64 },
    AccountNotFound,
    Overflow,
}

/// The text that describes a state error.
pub open spec fn state_error_text(error: StateError) -> Seq<char> {
    match error {
        StateError::InsufficientBalance { needed, available } => "insufficient balance: need "@
            + decimal_text(needed as nat) + ", have "@ + decimal_text(available as nat),
        StateError::InvalidNonce { expected, got } => "invalid nonce: expected "@ + decimal_text(
            expected as nat,
        ) + ", got "@ + decimal_text(got as nat),
        StateError::AccountNotFound => "account not found"@,
        StateError::Overflow => "arithmetic overflow"@,
    }
}

impl StateError {
    /// The text that describes the error.
    pub fn to_string(&self) -> (text: String)
        ensures
            text@ == state_error_text(*self),
    {
        match self {
            StateError::InsufficientBalance { needed, available } => {
                let mut text = String::from_str("insufficient balance: need ");
                text.append(decimal_to_string(*needed).as_str());
                text.append(", have ");
                text.append(decimal_to_string(*available).as_str());
                text
            },
            StateError::InvalidNonce { expected, got } => {
                let mut text = String::from_str("invalid nonce: expected ");
                text.append(decimal_to_string(*expected).as_str());
                text.append(", got ");
                text.append(decimal_to_string(*got).as_str());
                text
            },
            StateError::AccountNotFound => String::from_str("account not found"),
            StateError::Overflow => String::from_str("arithmetic overflow"),
        }
    }
}

/// Why a snapshot of the accounts could not be taken in.
#[derive(Debug, Clone, Copy, PartialEq, Eq, Structural)]
pub enum SnapshotError {
    /// The key at `index` is no hex text.
    InvalidKey { index: usize },
    /// The key at `index` stands for `got` bytes and not for thirty-two.
    InvalidKeyLength { index: usize, got: usize },
}

/// What executing one transaction of a block gave.
#[derive(Debug, Clone, PartialEq, Eq)]
pub struct TransactionReceipt {
    pub tx_hash: [u8; 32],
    pub success: bool,
    pub fee_paid: u64,
    pub error: Option<String>,
}

} // verus!
