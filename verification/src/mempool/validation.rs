//! What the mempool checks of a transaction before it takes it in.

use vstd::prelude::*;
use vstd::string::StringExecFns;
use crate::bft::block::{Transaction, TransactionView, signing_digest};
use crate::bytes::zero_bytes32;
use crate::crypto::{ed25519_verifies_strict, ed25519_verify_strict};
use crate::keys::keys_equal;
use crate::mempool::types::MempoolError;

verus! {

/// Why a transaction is not well-formed, if it is not: its sender is the
/// zero address, it carries no signature, or it moves nothing.
pub open spec fn structural_fault(tx: TransactionView) -> Option<Seq<char>> {
    if tx.from == zero_bytes32() {
        Some("sender cannot be zero address"@)
    } else if tx.signature.len() == 0 {
        Some("signature cannot be empty"@)
    } else if tx.amount == 0 {
        Some("amount must be greater than zero"@)
    } else {
        None
    }
}

/// Whether a transaction carries a 64-byte signature that the strict check
/// accepts for its signing message under the sender's key.
pub open spec fn strictly_signed(tx: TransactionView) -> bool {
    tx.signature.len() == 64 && ed25519_verifies_strict(tx.from, signing_digest(tx), tx.signature)
}

/// Checks that a transaction is well-formed: the sender is not the zero
/// address, there is a signature, and the amount is above zero.
pub fn validate_transaction(tx: &Transaction) -> (r: Result<(), MempoolError>)
    ensures
        match structural_fault(tx@) {
            Some(reason) => r matches Err(MempoolError::InvalidTransaction(text)) && text@
                == reason,
            None => r is Ok,
        },
{
    let zero = [0u8; 32];
    proof {
        assert(zero@ =~= zero_bytes32());
    }
    if keys_equal(&tx.from, &zero) {
        return Err(
            MempoolError::InvalidTransaction(String::from_str("sender cannot be zero address")),
        );
    }
    if tx.signature.len() == 0 {
        return Err(MempoolError::InvalidTransaction(String::from_str("signature cannot be empty")));
    }
    if tx.amount == 0 {
        return Err(
            MempoolError::InvalidTransaction(String::from_str("amount must be greater than zero")),
        );
    }
    Ok(())
}

/// The message that the signature of a transaction covers: SHA-256 over
/// sender, receiver, amount, nonce and data.
pub fn build_signing_message(tx: &Transaction) -> (message: [u8; 32])
    ensures
        message@ == signing_digest(tx@),
{
    tx.signing_message()
}

/// Checks the signature of a transaction under the sender's key, by the
/// strict check.
pub fn verify_signature(tx: &Transaction) -> (r: Result<(), MempoolError>)
    ensures
        strictly_signed(tx@) ==> r is Ok,
        !strictly_signed(tx@) ==> r == Err::<(), MempoolError>(MempoolError::InvalidSignature),
{
    if tx.signature.len() != 64 {
        return Err(MempoolError::InvalidSignature);
    }
    let signature = crate::bytes::read_array64(tx.signature.as_slice(), 0);
    assert(signature@ =~= tx.signature@);
    let message = build_signing_message(tx);
    if ed25519_verify_strict(&tx.from, message.as_slice(), &signature) {
        Ok(())
    } else {
        Err(MempoolError::InvalidSignature)
    }
}

} // verus!
