//! Validators, their status, and the configuration and state of the
//! validator set.

use vstd::prelude::*;
use crate::keymap::KeyMap;
use crate::keys::PublicKey;

verus! {

/// Whether a validator takes part in consensus.
#[derive(Debug, Clone, Copy, PartialEq, Eq, Hash, Structural)]
pub enum ValidatorStatus {
    /// Takes part in consensus and earns rewards.
    Active,
    /// Registered, and waiting for a place in the active set.
    Standby,
    /// Penalized: left out of consensus and of rotation.
    Jailed,
}

/// What is recorded of one validator.
#[derive(Debug, Clone, Copy, PartialEq, Eq)]
pub struct ValidatorInfo {
    pub pubkey: PublicKey,
    /// The validator's own stake, in the smallest unit of the token.
    pub stake: u64,
    /// The commission in basis points.
    pub commission_rate: u16,
    pub status: ValidatorStatus,
    /// The performance score in basis points, from 0 to 10_000.
    pub performance_score: u16,
    /// The height at which the validator joined.
    pub join_height: u64,
}

/// A stake weighed by a vote weight in thousandths, as far as it fits in 64 bits.
pub open spec fn weighed_stake(stake: u64, vote_weight_bps: u64) -> nat {
    ((stake as nat * vote_weight_bps as nat / 1000) % 0x1_0000_0000_0000_0000) as nat
}

impl ValidatorInfo {
    /// The stake weighed by `vote_weight_bps`, where 1000 is 1.0x: the low
    /// 64 bits of `stake * vote_weight_bps / 1000`.
    pub fn effective_stake(&self, vote_weight_bps: u64) -> (effective: u64)
        ensures
            effective == weighed_stake(self.stake, vote_weight_bps),
            self.stake as nat * vote_weight_bps as nat / 1000 <= u64::MAX ==> effective
                == self.stake as nat * vote_weight_bps as nat / 1000,
    {
        assert((self.stake as u128) * (vote_weight_bps as u128) <= 0xffff_ffff_ffff_ffff
            * 0xffff_ffff_ffff_ffff) by (nonlinear_arith)
            requires
                self.stake <= 0xffff_ffff_ffff_ffff,
                vote_weight_bps <= 0xffff_ffff_ffff_ffff,
        ;
        let scaled: u128 = (self.stake as u128) * (vote_weight_bps as u128) / 1000;
        let effective: u64 = #[verifier::truncate]
        (scaled as u64);
        assert(effective == scaled % 0x1_0000_0000_0000_0000) by (bit_vector)
            requires
                effective == scaled as u64,
        ;
        effective
    }
}

/// The configuration of the validator set.
#[derive(Debug, Clone, Copy, PartialEq, Eq)]
pub struct ValidatorSetConfig {
    /// The largest number of active validators.
    pub active_set_cap: usize,
    /// The number of blocks of an epoch; rotation happens between epochs.
    pub epoch_length: u64,
    /// The least stake with which a validator can register.
    pub min_stake: u64,
}

impl Default for ValidatorSetConfig {
    fn default() -> (config: Self)
        ensures
            config == (ValidatorSetConfig {
                active_set_cap: 200,
                epoch_length: 100,
                min_stake: 1_000_000,
            }),
    {
        ValidatorSetConfig { active_set_cap: 200, epoch_length: 100, min_stake: 1_000_000 }
    }
}

/// The state of the validator set: the registered validators by public key,
/// the configuration and the current epoch.
#[derive(Debug, Clone)]
pub struct ValidatorSetState {
    pub validators: KeyMap<ValidatorInfo>,
    pub config: ValidatorSetConfig,
    pub current_epoch: u64,
}

/// Why an operation on the validator set failed.
#[derive(Debug, Clone, Copy, PartialEq, Eq)]
pub enum ValidatorSetError {
    AlreadyRegistered(PublicKey),
    NotFound(PublicKey),
    InsufficientStake { have: u64, need: u64 },
    Jailed,
    NotJailed,
    AlreadyActive,
    AlreadyStandby,
    Overflow,
}

pub type ValidatorSetResult<T> = Result<T, ValidatorSetError>;

} // verus!
