//! Offenses, evidence, slash events and the configuration of slashing.

use vstd::prelude::*;
use vstd::bytes::spec_u64_to_le_bytes;
use vstd::string::StringExecFns;
use vstd::wrapping::u8_specs::{wrapping_add, wrapping_mul};
use crate::bytes::{append_bytes, append_u64_le, zero_bytes32};
use crate::keys::PublicKey;
use crate::text::{json_byte_array, json_of_bytes};

verus! {

/// What a validator can be slashed for.
#[derive(Debug, Clone, Copy, PartialEq, Eq, Hash, Structural)]
pub enum SlashingOffense {
    /// Signed two different blocks at one height and round.
    DoubleSign,
    /// Missed too many blocks in a row.
    Downtime,
    /// Proposed an invalid block.
    InvalidBlock,
}

impl SlashingOffense {
    /// The number that stands for the offense.
    pub open spec fn code(self) -> u8 {
        match self {
            SlashingOffense::DoubleSign => 0,
            SlashingOffense::Downtime => 1,
            SlashingOffense::InvalidBlock => 2,
        }
    }

    /// The name of the offense.
    pub fn to_string(&self) -> (text: String)
        ensures
            text@ == (match self {
                SlashingOffense::DoubleSign => "DoubleSign"@,
                SlashingOffense::Downtime => "Downtime"@,
                SlashingOffense::InvalidBlock => "InvalidBlock"@,
            }),
    {
        match self {
            SlashingOffense::DoubleSign => String::from_str("DoubleSign"),
            SlashingOffense::Downtime => String::from_str("Downtime"),
            SlashingOffense::InvalidBlock => String::from_str("InvalidBlock"),
        }
    }
}

/// The record of one slash.
#[derive(Debug, Clone, Copy, PartialEq, Eq)]
pub struct SlashEvent {
    pub offender: PublicKey,
    pub offense: SlashingOffense,
    /// The stake that was slashed.
    pub slash_amount: u64,
    /// The height of the offense.
    pub height: u64,
    /// The hash of the evidence that led to the slash.
    pub evidence_hash: [u8; 32],
}

/// The slash of each offense in basis points, and the downtime threshold.
#[derive(Debug, Clone, Copy, PartialEq, Eq, Structural)]
pub struct SlashingConfig {
    pub double_sign_slash_bps: u64,
    pub downtime_slash_bps: u64,
    pub invalid_block_slash_bps: u64,
    /// How many blocks in a row a validator may miss.
    pub downtime_threshold: u64,
}

impl Default for SlashingConfig {
    fn default() -> (config: Self)
        ensures
            config == (SlashingConfig {
                double_sign_slash_bps: 500,
                downtime_slash_bps: 100,
                invalid_block_slash_bps: 1000,
                downtime_threshold: 100,
            }),
    {
        SlashingConfig {
            double_sign_slash_bps: 500,
            downtime_slash_bps: 100,
            invalid_block_slash_bps: 1000,
            downtime_threshold: 100,
        }
    }
}

impl SlashingConfig {
    /// The slash of an offense in basis points.
    pub open spec fn bps_for(self, offense: SlashingOffense) -> u64 {
        match offense {
            SlashingOffense::DoubleSign => self.double_sign_slash_bps,
            SlashingOffense::Downtime => self.downtime_slash_bps,
            SlashingOffense::InvalidBlock => self.invalid_block_slash_bps,
        }
    }

    /// The slash of an offense in basis points.
    pub fn slash_bps(&self, offense: &SlashingOffense) -> (bps: u64)
        ensures
            bps == self.bps_for(*offense),
    {
        match offense {
            SlashingOffense::DoubleSign => self.double_sign_slash_bps,
            SlashingOffense::Downtime => self.downtime_slash_bps,
            SlashingOffense::InvalidBlock => self.invalid_block_slash_bps,
        }
    }
}

/// A piece of evidence of the misbehaviour of a validator.
#[derive(Debug, PartialEq, Eq)]
pub struct EvidenceRecord {
    pub offense: SlashingOffense,
    pub offender: PublicKey,
    /// The height of the offense.
    pub height: u64,
    /// The raw evidence.
    pub data: Vec<u8>,
    /// Whether the evidence has been processed.
    pub processed: bool,
}

/// A piece of evidence as plain values.
pub struct EvidenceView {
    pub offense: SlashingOffense,
    pub offender: Seq<u8>,
    pub height: u64,
    pub data: Seq<u8>,
    pub processed: bool,
}

impl View for EvidenceRecord {
    type V = EvidenceView;

    open spec fn view(&self) -> EvidenceView {
        EvidenceView {
            offense: self.offense,
            offender: self.offender@,
            height: self.height,
            data: self.data@,
            processed: self.processed,
        }
    }
}

impl Clone for EvidenceRecord {
    fn clone(&self) -> (copy: Self)
        ensures
            copy@ == self@,
            copy.offender == self.offender,
    {
        EvidenceRecord {
            offense: self.offense,
            offender: self.offender,
            height: self.height,
            data: self.data.clone(),
            processed: self.processed,
        }
    }
}

/// What is hashed of a piece of evidence: offender, height, data and the
/// number of the offense. Whether it has been processed is no part of it.
pub open spec fn evidence_bytes(evidence: EvidenceView) -> Seq<u8> {
    evidence.offender + spec_u64_to_le_bytes(evidence.height) + evidence.data + seq![
        evidence.offense.code(),
    ]
}

/// The first `n` bytes of `text` folded into thirty-two bytes: the byte at
/// position `i` is combined by exclusive or with the folded byte at
/// `i mod 32`, and 31 times the byte is added, with wrap-around, to the
/// folded byte at `(i + 1) mod 32`.
pub open spec fn folded(text: Seq<u8>, n: int) -> Seq<u8>
    decreases n,
{
    if n <= 0 {
        zero_bytes32()
    } else {
        let before = folded(text, n - 1);
        let i = n - 1;
        let byte = text[i];
        let mixed = before.update(i % 32, before[i % 32] ^ byte);
        mixed.update((i + 1) % 32, wrapping_add(mixed[(i + 1) % 32], wrapping_mul(byte, 31)))
    }
}

/// The hash of a piece of evidence: its bytes as compact JSON text, folded
/// into thirty-two bytes.
pub open spec fn evidence_hash(evidence: EvidenceView) -> Seq<u8> {
    let text = json_byte_array(evidence_bytes(evidence));
    folded(text, text.len() as int)
}

proof fn lemma_folded_len(text: Seq<u8>, n: int)
    ensures
        folded(text, n).len() == 32,
    decreases n,
{
    if n > 0 {
        lemma_folded_len(text, n - 1);
    }
}

impl EvidenceRecord {
    /// The hash of the evidence, by which duplicates are found. It does not
    /// depend on whether the evidence has been processed.
    pub fn hash(&self) -> (digest: [u8; 32])
        ensures
            digest@ == evidence_hash(self@),
    {
        let mut bytes: Vec<u8> = Vec::new();
        append_bytes(&mut bytes, self.offender.as_slice());
        append_u64_le(&mut bytes, self.height);
        append_bytes(&mut bytes, self.data.as_slice());
        bytes.push(
            match self.offense {
                SlashingOffense::DoubleSign => 0u8,
                SlashingOffense::Downtime => 1u8,
                SlashingOffense::InvalidBlock => 2u8,
            },
        );
        assert(bytes@ =~= evidence_bytes(self@));
        let text = json_of_bytes(&bytes);
        let mut out = [0u8; 32];
        let mut i: usize = 0;
        proof {
            assert(out@ =~= zero_bytes32());
        }
        while i < text.len()
            invariant
                i <= text@.len(),
                out@ == folded(text@, i as int),
                out@.len() == 32,
            decreases text@.len() - i,
        {
            let byte = text[i];
            let first = i % 32;
            let second = (first + 1) % 32;
            assert(second == (i + 1) % 32);
            out[first] = out[first] ^ byte;
            out[second] = out[second].wrapping_add(byte.wrapping_mul(31));
            i += 1;
        }
        out
    }
}

/// Why a slashing operation failed.
#[derive(Debug, Clone, PartialEq, Eq)]
pub enum SlashingError {
    ValidatorNotFound(PublicKey),
    DuplicateEvidence,
    InvalidEvidence(String),
    AlreadyJailed,
    ValidatorSetError(String),
}

pub type SlashingResult<T> = Result<T, SlashingError>;

} // verus!
