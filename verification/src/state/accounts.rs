//! The state of one account: a balance and a nonce.

use vstd::prelude::*;
use crate::state::types::StateError;

verus! {

/// The balance of an account and the number of transactions it has sent.
#[derive(Debug, Clone, Copy, PartialEq, Eq, Structural)]
pub struct AccountState {
    pub balance: u64,
    pub nonce: u64,
}

impl Default for AccountState {
    fn default() -> (account: Self)
        ensures
            account == (AccountState { balance: 0, nonce: 0 }),
    {
        AccountState { balance: 0, nonce: 0 }
    }
}

impl AccountState {
    /// An account with the given balance and nonce 0.
    pub fn new(balance: u64) -> (account: Self)
        ensures
            account == (AccountState { balance, nonce: 0 }),
    {
        AccountState { balance, nonce: 0 }
    }

    /// Takes `amount` from the balance. Fails, and changes nothing, where the
    /// balance is smaller: the balance never goes below zero.
    pub fn debit(&mut self, amount: u64) -> (r: Result<(), StateError>)
        ensures
            old(self).balance >= amount ==> r is Ok && *final(self) == (AccountState {
                balance: (old(self).balance - amount) as u64,
                nonce: old(self).nonce,
            }),
            old(self).balance < amount ==> r == Err::<(), StateError>(
                StateError::InsufficientBalance { needed: amount, available: old(self).balance },
            ) && *final(self) == *old(self),
    {
        if self.balance < amount {
            return Err(
                StateError::InsufficientBalance { needed: amount, available: self.balance },
            );
        }
        self.balance -= amount;
        Ok(())
    }

    /// Adds `amount` to the balance. Fails, and changes nothing, where the
    /// sum does not fit in 64 bits.
    pub fn credit(&mut self, amount: u64) -> (r: Result<(), StateError>)
        ensures
            old(self).balance + amount <= u64::MAX ==> r is Ok && *final(self) == (AccountState {
                balance: (old(self).balance + amount) as u64,
                nonce: old(self).nonce,
            }),
            old(self).balance + amount > u64::MAX ==> r == Err::<(), StateError>(
                StateError::Overflow,
            ) && *final(self) == *old(self),
    {
        match self.balance.checked_add(amount) {
            Some(sum) => {
                self.balance = sum;
                Ok(())
            },
            None => Err(StateError::Overflow),
        }
    }

    /// Adds one to the nonce, which never decreases.
    pub fn increment_nonce(&mut self)
        requires
            old(self).nonce < u64::MAX,
        ensures
            *final(self) == (AccountState {
                balance: old(self).balance,
                nonce: (old(self).nonce + 1) as u64,
            }),
    {
        self.nonce += 1;
    }
}

} // verus!
