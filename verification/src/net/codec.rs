//! The canonical binary encoding of the messages that nodes exchange, and
//! its decoding. Integers are little-endian, byte strings and lists stand
//! behind their lengths as eight bytes, the variant of a message or of an
//! enumeration is a four-byte number, and an optional value is a byte 0, or
//! a byte 1 and the value.

use vstd::prelude::*;
use vstd::bytes::{spec_u32_to_le_bytes, spec_u64_to_le_bytes};
use vstd::string::StringExecFns;
use crate::bft::block::{
    Block,
    BlockHeader,
    BlockView,
    Transaction,
    TransactionView,
    header_encoding,
    transaction_encoding,
    transaction_views,
};
use crate::bft::types::{
    BlockHash,
    ConsensusMessage,
    Height,
    Proposal,
    Round,
    TimeoutEvent,
    TimeoutStep,
    ValidatorId,
    Vote,
    VoteType,
};
use crate::bytes::{append_bytes, append_u32_le, append_u64_le};
use crate::crypto::{ed25519_is_key, ed25519_key_valid};
use crate::net::wire::{
    bytes_encoding,
    lemma_parse_bytes,
    lemma_parse_fixed,
    lemma_parse_transaction,
    lemma_parse_u32,
    lemma_parse_u64,
    lemma_parse_u8,
    parse_bytes,
    parse_fixed,
    parse_transaction,
    parse_u32,
    parse_u64,
    parse_u8,
    read_32,
    read_64,
    read_bytes,
    read_transaction,
    read_u32,
    read_u64,
    read_u8,
    transaction_sized,
};

verus! {

/// Why a message could not be decoded.
#[derive(Debug, Clone, PartialEq, Eq)]
pub enum CodecError {
    Serialize(String),
}

/// The error of input that is cut short or holds a number that stands for
/// nothing.
pub fn malformed() -> (error: CodecError)
    ensures
        error matches CodecError::Serialize(text) && text@ == "malformed input"@,
{
    CodecError::Serialize(String::from_str("malformed input"))
}

/// A vote as plain values.
pub struct VoteView {
    pub vote_type: VoteType,
    pub height: u64,
    pub round: u32,
    pub block_hash: Option<Seq<u8>>,
    pub validator: Seq<u8>,
    pub signature: Seq<u8>,
}

/// A proposal as plain values.
pub struct ProposalView {
    pub height: u64,
    pub round: u32,
    pub block_hash: Seq<u8>,
    pub proposer: Seq<u8>,
    pub signature: Seq<u8>,
    pub valid_round: Option<u32>,
}

/// A block header as plain values.
pub struct HeaderView {
    pub height: u64,
    pub timestamp: u64,
    pub parent_hash: Seq<u8>,
    pub proposer: Seq<u8>,
    pub state_root: Seq<u8>,
    pub tx_merkle_root: Seq<u8>,
}

/// A block as plain values.
pub struct WireBlock {
    pub header: HeaderView,
    pub transactions: Seq<TransactionView>,
}

/// A consensus message as plain values.
pub enum MessageView {
    ProposeBlock { proposal: ProposalView, block: Option<WireBlock> },
    CastVote(VoteView),
    CommitBlock { height: u64, block_hash: Seq<u8> },
    ScheduleTimeout(TimeoutEvent),
}

/// A vote as plain values.
pub open spec fn vote_view(vote: Vote) -> VoteView {
    VoteView {
        vote_type: vote.vote_type,
        height: vote.height.0,
        round: vote.round.0,
        block_hash: match vote.block_hash {
            Some(hash) => Some(hash.0@),
            None => None,
        },
        validator: vote.validator.0@,
        signature: vote.signature@,
    }
}

/// A proposal as plain values.
pub open spec fn proposal_view(proposal: Proposal) -> ProposalView {
    ProposalView {
        height: proposal.height.0,
        round: proposal.round.0,
        block_hash: proposal.block_hash.0@,
        proposer: proposal.proposer.0@,
        signature: proposal.signature@,
        valid_round: match proposal.valid_round {
            Some(round) => Some(round.0),
            None => None,
        },
    }
}

/// A block header as plain values.
pub open spec fn header_view(header: BlockHeader) -> HeaderView {
    HeaderView {
        height: header.height.0,
        timestamp: header.timestamp,
        parent_hash: header.parent_hash.0@,
        proposer: header.proposer.0@,
        state_root: header.state_root@,
        tx_merkle_root: header.tx_merkle_root@,
    }
}

/// A block as plain values.
pub open spec fn wire_block(block: BlockView) -> WireBlock {
    WireBlock { header: header_view(block.header), transactions: block.transactions }
}

/// A consensus message as plain values.
pub open spec fn message_view(message: ConsensusMessage) -> MessageView {
    match message {
        ConsensusMessage::ProposeBlock { proposal, block } => MessageView::ProposeBlock {
            proposal: proposal_view(proposal),
            block: match block {
                Some(b) => Some(wire_block(b@)),
                None => None,
            },
        },
        ConsensusMessage::CastVote(vote) => MessageView::CastVote(vote_view(vote)),
        ConsensusMessage::CommitBlock { height, block_hash } => MessageView::CommitBlock {
            height: height.0,
            block_hash: block_hash.0@,
        },
        ConsensusMessage::ScheduleTimeout(event) => MessageView::ScheduleTimeout(event),
    }
}

/// The number that stands for a vote type.
pub open spec fn vote_type_code(vote_type: VoteType) -> u32 {
    match vote_type {
        VoteType::Prevote => 0,
        VoteType::Precommit => 1,
    }
}

/// The number that stands for a timeout step.
pub open spec fn timeout_step_code(step: TimeoutStep) -> u32 {
    match step {
        TimeoutStep::Propose => 0,
        TimeoutStep::Prevote => 1,
        TimeoutStep::Precommit => 2,
    }
}

/// The encoding of an optional hash.
pub open spec fn optional_hash_encoding(hash: Option<Seq<u8>>) -> Seq<u8> {
    match hash {
        Some(bytes) => seq![1u8] + bytes,
        None => seq![0u8],
    }
}

/// The encoding of an optional round.
pub open spec fn optional_round_encoding(round: Option<u32>) -> Seq<u8> {
    match round {
        Some(r) => seq![1u8] + spec_u32_to_le_bytes(r),
        None => seq![0u8],
    }
}

/// The encoding of a vote: type, height, round, optional hash, the
/// validator's key behind its length, and the signature.
pub open spec fn vote_encoding(vote: VoteView) -> Seq<u8> {
    spec_u32_to_le_bytes(vote_type_code(vote.vote_type)) + spec_u64_to_le_bytes(vote.height)
        + spec_u32_to_le_bytes(vote.round) + optional_hash_encoding(vote.block_hash)
        + bytes_encoding(vote.validator) + vote.signature
}

/// The encoding of a proposal: height, round, hash, the proposer's key
/// behind its length, the signature and the optional valid round.
pub open spec fn proposal_encoding(proposal: ProposalView) -> Seq<u8> {
    spec_u64_to_le_bytes(proposal.height) + spec_u32_to_le_bytes(proposal.round)
        + proposal.block_hash + bytes_encoding(proposal.proposer) + proposal.signature
        + optional_round_encoding(proposal.valid_round)
}

/// The encoding of a timeout event: height, round and step.
pub open spec fn timeout_encoding(event: TimeoutEvent) -> Seq<u8> {
    spec_u64_to_le_bytes(event.height.0) + spec_u32_to_le_bytes(event.round.0)
        + spec_u32_to_le_bytes(timeout_step_code(event.step))
}

/// The encoding of a header: height, timestamp, parent hash, the
/// proposer's key behind its length, state root and transaction root.
pub open spec fn wire_header_encoding(header: HeaderView) -> Seq<u8> {
    spec_u64_to_le_bytes(header.height) + spec_u64_to_le_bytes(header.timestamp)
        + header.parent_hash + bytes_encoding(header.proposer) + header.state_root
        + header.tx_merkle_root
}

/// The encodings of a list of transactions, one after the other.
pub open spec fn transactions_encoding(txs: Seq<TransactionView>) -> Seq<u8>
    decreases txs.len(),
{
    if txs.len() == 0 {
        Seq::<u8>::empty()
    } else {
        transaction_encoding(txs[0]) + transactions_encoding(txs.drop_first())
    }
}

/// The encoding of a block: the header, the number of transactions, and
/// the transactions.
pub open spec fn block_encoding(block: WireBlock) -> Seq<u8> {
    wire_header_encoding(block.header) + spec_u64_to_le_bytes(block.transactions.len() as u64)
        + transactions_encoding(block.transactions)
}

/// The encoding of an optional block.
pub open spec fn optional_block_encoding(block: Option<WireBlock>) -> Seq<u8> {
    match block {
        Some(b) => seq![1u8] + block_encoding(b),
        None => seq![0u8],
    }
}

/// The encoding of a consensus message: the number of its variant, then
/// its fields.
pub open spec fn message_encoding(message: MessageView) -> Seq<u8> {
    match message {
        MessageView::ProposeBlock { proposal, block } => spec_u32_to_le_bytes(0)
            + proposal_encoding(proposal) + optional_block_encoding(block),
        MessageView::CastVote(vote) => spec_u32_to_le_bytes(1) + vote_encoding(vote),
        MessageView::CommitBlock { height, block_hash } => spec_u32_to_le_bytes(2)
            + spec_u64_to_le_bytes(height) + block_hash,
        MessageView::ScheduleTimeout(event) => spec_u32_to_le_bytes(3) + timeout_encoding(event),
    }
}

/// The encoding of a network message: the sender behind its length, then
/// the consensus message.
pub open spec fn network_encoding(sender: Seq<u8>, message: MessageView) -> Seq<u8> {
    bytes_encoding(sender) + message_encoding(message)
}

/// The optional hash at `pos`.
pub open spec fn parse_optional_hash(data: Seq<u8>, pos: int) -> Option<(Option<Seq<u8>>, int)> {
    match parse_u8(data, pos) {
        None => None,
        Some((tag, next)) => if tag == 0 {
            Some((None, next))
        } else if tag == 1 {
            match parse_fixed(data, next, 32) {
                Some((hash, end)) => Some((Some(hash), end)),
                None => None,
            }
        } else {
            None
        },
    }
}

/// The optional round at `pos`.
pub open spec fn parse_optional_round(data: Seq<u8>, pos: int) -> Option<(Option<u32>, int)> {
    match parse_u8(data, pos) {
        None => None,
        Some((tag, next)) => if tag == 0 {
            Some((None, next))
        } else if tag == 1 {
            match parse_u32(data, next) {
                Some((round, end)) => Some((Some(round), end)),
                None => None,
            }
        } else {
            None
        },
    }
}

/// The key at `pos`: thirty-two bytes behind the length 32, which are an
/// Ed25519 public key.
pub open spec fn parse_key(data: Seq<u8>, pos: int) -> Option<(Seq<u8>, int)> {
    match parse_u64(data, pos) {
        None => None,
        Some((len, next)) => if len == 32 {
            match parse_fixed(data, next, 32) {
                Some((key, end)) => if ed25519_key_valid(key) {
                    Some((key, end))
                } else {
                    None
                },
                None => None,
            }
        } else {
            None
        },
    }
}

/// The vote at `pos`.
pub open spec fn parse_vote(data: Seq<u8>, pos: int) -> Option<(VoteView, int)> {
    match parse_u32(data, pos) {
        None => None,
        Some((code, s1)) => if code > 1 {
            None
        } else {
            match parse_u64(data, s1) {
                None => None,
                Some((height, s2)) => match parse_u32(data, s2) {
                    None => None,
                    Some((round, s3)) => match parse_optional_hash(data, s3) {
                        None => None,
                        Some((block_hash, s4)) => match parse_key(data, s4) {
                            None => None,
                            Some((validator, s5)) => match parse_fixed(data, s5, 64) {
                                None => None,
                                Some((signature, s6)) => Some(
                                    (
                                        VoteView {
                                            vote_type: if code == 0 {
                                                VoteType::Prevote
                                            } else {
                                                VoteType::Precommit
                                            },
                                            height,
                                            round,
                                            block_hash,
                                            validator,
                                            signature,
                                        },
                                        s6,
                                    ),
                                ),
                            },
                        },
                    },
                },
            }
        },
    }
}

/// The proposal at `pos`.
pub open spec fn parse_proposal(data: Seq<u8>, pos: int) -> Option<(ProposalView, int)> {
    match parse_u64(data, pos) {
        None => None,
        Some((height, s1)) => match parse_u32(data, s1) {
            None => None,
            Some((round, s2)) => match parse_fixed(data, s2, 32) {
                None => None,
                Some((block_hash, s3)) => match parse_key(data, s3) {
                    None => None,
                    Some((proposer, s4)) => match parse_fixed(data, s4, 64) {
                        None => None,
                        Some((signature, s5)) => match parse_optional_round(data, s5) {
                            None => None,
                            Some((valid_round, s6)) => Some(
                                (
                                    ProposalView {
                                        height,
                                        round,
                                        block_hash,
                                        proposer,
                                        signature,
                                        valid_round,
                                    },
                                    s6,
                                ),
                            ),
                        },
                    },
                },
            },
        },
    }
}

/// The timeout event at `pos`.
pub open spec fn parse_timeout(data: Seq<u8>, pos: int) -> Option<(TimeoutEvent, int)> {
    match parse_u64(data, pos) {
        None => None,
        Some((height, s1)) => match parse_u32(data, s1) {
            None => None,
            Some((round, s2)) => match parse_u32(data, s2) {
                None => None,
                Some((code, s3)) => if code > 2 {
                    None
                } else {
                    Some(
                        (
                            TimeoutEvent {
                                height: Height(height),
                                round: Round(round),
                                step: if code == 0 {
                                    TimeoutStep::Propose
                                } else if code == 1 {
                                    TimeoutStep::Prevote
                                } else {
                                    TimeoutStep::Precommit
                                },
                            },
                            s3,
                        ),
                    )
                },
            },
        },
    }
}

/// The header at `pos`.
pub open spec fn parse_header(data: Seq<u8>, pos: int) -> Option<(HeaderView, int)> {
    match parse_u64(data, pos) {
        None => None,
        Some((height, s1)) => match parse_u64(data, s1) {
            None => None,
            Some((timestamp, s2)) => match parse_fixed(data, s2, 32) {
                None => None,
                Some((parent_hash, s3)) => match parse_key(data, s3) {
                    None => None,
                    Some((proposer, s4)) => match parse_fixed(data, s4, 32) {
                        None => None,
                        Some((state_root, s5)) => match parse_fixed(data, s5, 32) {
                            None => None,
                            Some((tx_merkle_root, s6)) => Some(
                                (
                                    HeaderView {
                                        height,
                                        timestamp,
                                        parent_hash,
                                        proposer,
                                        state_root,
                                        tx_merkle_root,
                                    },
                                    s6,
                                ),
                            ),
                        },
                    },
                },
            },
        },
    }
}

/// The `count` transactions that stand one after the other at `pos`.
pub open spec fn parse_transactions(data: Seq<u8>, pos: int, count: nat) -> Option<
    (Seq<TransactionView>, int),
>
    decreases count,
{
    if count == 0 {
        Some((Seq::<TransactionView>::empty(), pos))
    } else {
        match parse_transaction(data, pos) {
            None => None,
            Some((first, next)) => match parse_transactions(data, next, (count - 1) as nat) {
                None => None,
                Some((rest, end)) => Some((seq![first] + rest, end)),
            },
        }
    }
}

/// The block at `pos`.
pub open spec fn parse_block(data: Seq<u8>, pos: int) -> Option<(WireBlock, int)> {
    match parse_header(data, pos) {
        None => None,
        Some((header, s1)) => match parse_u64(data, s1) {
            None => None,
            Some((count, s2)) => match parse_transactions(data, s2, count as nat) {
                None => None,
                Some((transactions, s3)) => Some((WireBlock { header, transactions }, s3)),
            },
        },
    }
}

/// The optional block at `pos`.
pub open spec fn parse_optional_block(data: Seq<u8>, pos: int) -> Option<(Option<WireBlock>, int)> {
    match parse_u8(data, pos) {
        None => None,
        Some((tag, next)) => if tag == 0 {
            Some((None, next))
        } else if tag == 1 {
            match parse_block(data, next) {
                Some((block, end)) => Some((Some(block), end)),
                None => None,
            }
        } else {
            None
        },
    }
}

/// The consensus message at `pos`.
pub open spec fn parse_message(data: Seq<u8>, pos: int) -> Option<(MessageView, int)> {
    match parse_u32(data, pos) {
        None => None,
        Some((variant, s1)) => if variant == 0 {
            match parse_proposal(data, s1) {
                None => None,
                Some((proposal, s2)) => match parse_optional_block(data, s2) {
                    None => None,
                    Some((block, s3)) => Some((MessageView::ProposeBlock { proposal, block }, s3)),
                },
            }
        } else if variant == 1 {
            match parse_vote(data, s1) {
                None => None,
                Some((vote, s2)) => Some((MessageView::CastVote(vote), s2)),
            }
        } else if variant == 2 {
            match parse_u64(data, s1) {
                None => None,
                Some((height, s2)) => match parse_fixed(data, s2, 32) {
                    None => None,
                    Some((block_hash, s3)) => Some(
                        (MessageView::CommitBlock { height, block_hash }, s3),
                    ),
                },
            }
        } else if variant == 3 {
            match parse_timeout(data, s1) {
                None => None,
                Some((event, s2)) => Some((MessageView::ScheduleTimeout(event), s2)),
            }
        } else {
            None
        },
    }
}

/// The network message at `pos`: the sender and the consensus message.
pub open spec fn parse_network(data: Seq<u8>, pos: int) -> Option<((Seq<u8>, MessageView), int)> {
    match parse_bytes(data, pos) {
        None => None,
        Some((sender, s1)) => match parse_message(data, s1) {
            None => None,
            Some((message, s2)) => Some(((sender, message), s2)),
        },
    }
}

/// Whether a vote has the sizes of an encodable one, and the validator is
/// an Ed25519 public key.
pub open spec fn vote_sized(vote: VoteView) -> bool {
    &&& vote.validator.len() == 32
    &&& ed25519_key_valid(vote.validator)
    &&& vote.signature.len() == 64
    &&& vote.block_hash matches Some(hash) ==> hash.len() == 32
}

/// Whether a proposal has the sizes of an encodable one, and the proposer
/// is an Ed25519 public key.
pub open spec fn proposal_sized(proposal: ProposalView) -> bool {
    &&& proposal.block_hash.len() == 32
    &&& proposal.proposer.len() == 32
    &&& ed25519_key_valid(proposal.proposer)
    &&& proposal.signature.len() == 64
}

/// Whether a header has the sizes of an encodable one, and the proposer is
/// an Ed25519 public key.
pub open spec fn header_sized(header: HeaderView) -> bool {
    &&& header.parent_hash.len() == 32
    &&& header.proposer.len() == 32
    &&& ed25519_key_valid(header.proposer)
    &&& header.state_root.len() == 32
    &&& header.tx_merkle_root.len() == 32
}

/// Whether a block has the sizes of an encodable one.
pub open spec fn block_sized(block: WireBlock) -> bool {
    &&& header_sized(block.header)
    &&& block.transactions.len() <= u64::MAX
    &&& forall|i: int|
        0 <= i < block.transactions.len() ==> transaction_sized(#[trigger] block.transactions[i])
}

/// Whether a message has the sizes of an encodable one.
pub open spec fn message_sized(message: MessageView) -> bool {
    match message {
        MessageView::ProposeBlock { proposal, block } => proposal_sized(proposal) && (
        block matches Some(b) ==> block_sized(b)),
        MessageView::CastVote(vote) => vote_sized(vote),
        MessageView::CommitBlock { height, block_hash } => block_hash.len() == 32,
        MessageView::ScheduleTimeout(event) => true,
    }
}

/// An optional hash reads back from its encoding.
pub proof fn lemma_parse_optional_hash(prefix: Seq<u8>, hash: Option<Seq<u8>>, rest: Seq<u8>)
    requires
        hash matches Some(bytes) ==> bytes.len() == 32,
    ensures
        parse_optional_hash(prefix + optional_hash_encoding(hash) + rest, prefix.len() as int)
            == Some((hash, (prefix.len() + optional_hash_encoding(hash).len()) as int)),
{
    let all = prefix + optional_hash_encoding(hash) + rest;
    match hash {
        Some(bytes) => {
            assert(all =~= prefix + seq![1u8] + (bytes + rest));
            lemma_parse_u8(prefix, 1u8, bytes + rest);
            assert(all =~= (prefix + seq![1u8]) + bytes + rest);
            lemma_parse_fixed(prefix + seq![1u8], bytes, rest);
        },
        None => {
            lemma_parse_u8(prefix, 0u8, rest);
        },
    }
}

/// An optional round reads back from its encoding.
pub proof fn lemma_parse_optional_round(prefix: Seq<u8>, round: Option<u32>, rest: Seq<u8>)
    ensures
        parse_optional_round(prefix + optional_round_encoding(round) + rest, prefix.len() as int)
            == Some((round, (prefix.len() + optional_round_encoding(round).len()) as int)),
{
    vstd::bytes::lemma_auto_spec_u32_to_from_le_bytes();
    let all = prefix + optional_round_encoding(round) + rest;
    match round {
        Some(r) => {
            let bytes = spec_u32_to_le_bytes(r);
            assert(all =~= prefix + seq![1u8] + (bytes + rest));
            lemma_parse_u8(prefix, 1u8, bytes + rest);
            assert(all =~= (prefix + seq![1u8]) + bytes + rest);
            lemma_parse_u32(prefix + seq![1u8], r, rest);
        },
        None => {
            lemma_parse_u8(prefix, 0u8, rest);
        },
    }
}

/// A key reads back from its encoding.
pub proof fn lemma_parse_key(prefix: Seq<u8>, key: Seq<u8>, rest: Seq<u8>)
    requires
        key.len() == 32,
        ed25519_key_valid(key),
    ensures
        parse_key(prefix + bytes_encoding(key) + rest, prefix.len() as int) == Some(
            (key, (prefix.len() + 40) as int),
        ),
        bytes_encoding(key).len() == 40,
{
    vstd::bytes::lemma_auto_spec_u64_to_from_le_bytes();
    let len = spec_u64_to_le_bytes(32);
    let all = prefix + bytes_encoding(key) + rest;
    assert(all =~= prefix + len + (key + rest));
    lemma_parse_u64(prefix, 32, key + rest);
    assert(all =~= (prefix + len) + key + rest);
    lemma_parse_fixed(prefix + len, key, rest);
}

/// A vote reads back from its encoding, wherever the encoding stands.
pub proof fn lemma_parse_vote(prefix: Seq<u8>, vote: VoteView, rest: Seq<u8>)
    requires
        vote_sized(vote),
    ensures
        parse_vote(prefix + vote_encoding(vote) + rest, prefix.len() as int) == Some(
            (vote, (prefix.len() + vote_encoding(vote).len()) as int),
        ),
{
    vstd::bytes::lemma_auto_spec_u64_to_from_le_bytes();
    vstd::bytes::lemma_auto_spec_u32_to_from_le_bytes();
    let code = spec_u32_to_le_bytes(vote_type_code(vote.vote_type));
    let height = spec_u64_to_le_bytes(vote.height);
    let round = spec_u32_to_le_bytes(vote.round);
    let hash = optional_hash_encoding(vote.block_hash);
    let key = bytes_encoding(vote.validator);
    let all = prefix + vote_encoding(vote) + rest;
    let r1 = height + round + hash + key + vote.signature + rest;
    assert(all =~= prefix + code + r1);
    lemma_parse_u32(prefix, vote_type_code(vote.vote_type), r1);
    let s1 = prefix + code;
    let r2 = round + hash + key + vote.signature + rest;
    assert(all =~= s1 + height + r2);
    lemma_parse_u64(s1, vote.height, r2);
    let s2 = s1 + height;
    let r3 = hash + key + vote.signature + rest;
    assert(all =~= s2 + round + r3);
    lemma_parse_u32(s2, vote.round, r3);
    let s3 = s2 + round;
    let r4 = key + vote.signature + rest;
    assert(all =~= s3 + hash + r4);
    lemma_parse_optional_hash(s3, vote.block_hash, r4);
    let s4 = s3 + hash;
    let r5 = vote.signature + rest;
    assert(all =~= s4 + key + r5);
    lemma_parse_key(s4, vote.validator, r5);
    let s5 = s4 + key;
    assert(all =~= s5 + vote.signature + rest);
    lemma_parse_fixed(s5, vote.signature, rest);
}

/// A proposal reads back from its encoding.
pub proof fn lemma_parse_proposal(prefix: Seq<u8>, proposal: ProposalView, rest: Seq<u8>)
    requires
        proposal_sized(proposal),
    ensures
        parse_proposal(prefix + proposal_encoding(proposal) + rest, prefix.len() as int) == Some(
            (proposal, (prefix.len() + proposal_encoding(proposal).len()) as int),
        ),
{
    vstd::bytes::lemma_auto_spec_u64_to_from_le_bytes();
    vstd::bytes::lemma_auto_spec_u32_to_from_le_bytes();
    let height = spec_u64_to_le_bytes(proposal.height);
    let round = spec_u32_to_le_bytes(proposal.round);
    let key = bytes_encoding(proposal.proposer);
    let valid = optional_round_encoding(proposal.valid_round);
    let all = prefix + proposal_encoding(proposal) + rest;
    let r1 = round + proposal.block_hash + key + proposal.signature + valid + rest;
    assert(all =~= prefix + height + r1);
    lemma_parse_u64(prefix, proposal.height, r1);
    let s1 = prefix + height;
    let r2 = proposal.block_hash + key + proposal.signature + valid + rest;
    assert(all =~= s1 + round + r2);
    lemma_parse_u32(s1, proposal.round, r2);
    let s2 = s1 + round;
    let r3 = key + proposal.signature + valid + rest;
    assert(all =~= s2 + proposal.block_hash + r3);
    lemma_parse_fixed(s2, proposal.block_hash, r3);
    let s3 = s2 + proposal.block_hash;
    let r4 = proposal.signature + valid + rest;
    assert(all =~= s3 + key + r4);
    lemma_parse_key(s3, proposal.proposer, r4);
    let s4 = s3 + key;
    let r5 = valid + rest;
    assert(all =~= s4 + proposal.signature + r5);
    lemma_parse_fixed(s4, proposal.signature, r5);
    let s5 = s4 + proposal.signature;
    assert(all =~= s5 + valid + rest);
    lemma_parse_optional_round(s5, proposal.valid_round, rest);
}

/// A timeout event reads back from its encoding.
pub proof fn lemma_parse_timeout(prefix: Seq<u8>, event: TimeoutEvent, rest: Seq<u8>)
    ensures
        parse_timeout(prefix + timeout_encoding(event) + rest, prefix.len() as int) == Some(
            (event, (prefix.len() + 16) as int),
        ),
        timeout_encoding(event).len() == 16,
{
    vstd::bytes::lemma_auto_spec_u64_to_from_le_bytes();
    vstd::bytes::lemma_auto_spec_u32_to_from_le_bytes();
    let height = spec_u64_to_le_bytes(event.height.0);
    let round = spec_u32_to_le_bytes(event.round.0);
    let step = spec_u32_to_le_bytes(timeout_step_code(event.step));
    let all = prefix + timeout_encoding(event) + rest;
    assert(all =~= prefix + height + (round + step + rest));
    lemma_parse_u64(prefix, event.height.0, round + step + rest);
    let s1 = prefix + height;
    assert(all =~= s1 + round + (step + rest));
    lemma_parse_u32(s1, event.round.0, step + rest);
    let s2 = s1 + round;
    assert(all =~= s2 + step + rest);
    lemma_parse_u32(s2, timeout_step_code(event.step), rest);
}

/// A header reads back from its encoding.
pub proof fn lemma_parse_header(prefix: Seq<u8>, header: HeaderView, rest: Seq<u8>)
    requires
        header_sized(header),
    ensures
        parse_header(prefix + wire_header_encoding(header) + rest, prefix.len() as int) == Some(
            (header, (prefix.len() + 152) as int),
        ),
        wire_header_encoding(header).len() == 152,
{
    vstd::bytes::lemma_auto_spec_u64_to_from_le_bytes();
    let height = spec_u64_to_le_bytes(header.height);
    let timestamp = spec_u64_to_le_bytes(header.timestamp);
    let key = bytes_encoding(header.proposer);
    let all = prefix + wire_header_encoding(header) + rest;
    let r1 = timestamp + header.parent_hash + key + header.state_root + header.tx_merkle_root
        + rest;
    assert(all =~= prefix + height + r1);
    lemma_parse_u64(prefix, header.height, r1);
    let s1 = prefix + height;
    let r2 = header.parent_hash + key + header.state_root + header.tx_merkle_root + rest;
    assert(all =~= s1 + timestamp + r2);
    lemma_parse_u64(s1, header.timestamp, r2);
    let s2 = s1 + timestamp;
    let r3 = key + header.state_root + header.tx_merkle_root + rest;
    assert(all =~= s2 + header.parent_hash + r3);
    lemma_parse_fixed(s2, header.parent_hash, r3);
    let s3 = s2 + header.parent_hash;
    let r4 = header.state_root + header.tx_merkle_root + rest;
    assert(all =~= s3 + key + r4);
    lemma_parse_key(s3, header.proposer, r4);
    let s4 = s3 + key;
    let r5 = header.tx_merkle_root + rest;
    assert(all =~= s4 + header.state_root + r5);
    lemma_parse_fixed(s4, header.state_root, r5);
    let s5 = s4 + header.state_root;
    assert(all =~= s5 + header.tx_merkle_root + rest);
    lemma_parse_fixed(s5, header.tx_merkle_root, rest);
}

/// A list of transactions reads back from its encoding.
pub proof fn lemma_parse_transactions(prefix: Seq<u8>, txs: Seq<TransactionView>, rest: Seq<u8>)
    requires
        forall|i: int| 0 <= i < txs.len() ==> transaction_sized(#[trigger] txs[i]),
    ensures
        parse_transactions(
            prefix + transactions_encoding(txs) + rest,
            prefix.len() as int,
            txs.len(),
        ) == Some((txs, (prefix.len() + transactions_encoding(txs).len()) as int)),
    decreases txs.len(),
{
    let all = prefix + transactions_encoding(txs) + rest;
    if txs.len() == 0 {
        assert(txs =~= Seq::<TransactionView>::empty());
    } else {
        let first = transaction_encoding(txs[0]);
        let others = txs.drop_first();
        let tail = transactions_encoding(others);
        assert(all =~= prefix + first + (tail + rest));
        lemma_parse_transaction(prefix, txs[0], tail + rest);
        assert forall|i: int| 0 <= i < others.len() implies transaction_sized(
            #[trigger] others[i],
        ) by {
            assert(others[i] == txs[i + 1]);
        }
        assert(all =~= (prefix + first) + tail + rest);
        lemma_parse_transactions(prefix + first, others, rest);
        assert(seq![txs[0]] + others =~= txs);
    }
}

/// A block reads back from its encoding.
pub proof fn lemma_parse_block(prefix: Seq<u8>, block: WireBlock, rest: Seq<u8>)
    requires
        block_sized(block),
    ensures
        parse_block(prefix + block_encoding(block) + rest, prefix.len() as int) == Some(
            (block, (prefix.len() + block_encoding(block).len()) as int),
        ),
{
    vstd::bytes::lemma_auto_spec_u64_to_from_le_bytes();
    let header = wire_header_encoding(block.header);
    let count = spec_u64_to_le_bytes(block.transactions.len() as u64);
    let txs = transactions_encoding(block.transactions);
    let all = prefix + block_encoding(block) + rest;
    assert(all =~= prefix + header + (count + txs + rest));
    lemma_parse_header(prefix, block.header, count + txs + rest);
    let s1 = prefix + header;
    assert(all =~= s1 + count + (txs + rest));
    lemma_parse_u64(s1, block.transactions.len() as u64, txs + rest);
    let s2 = s1 + count;
    assert(all =~= s2 + txs + rest);
    lemma_parse_transactions(s2, block.transactions, rest);
}

/// An optional block reads back from its encoding.
pub proof fn lemma_parse_optional_block(prefix: Seq<u8>, block: Option<WireBlock>, rest: Seq<u8>)
    requires
        block matches Some(b) ==> block_sized(b),
    ensures
        parse_optional_block(prefix + optional_block_encoding(block) + rest, prefix.len() as int)
            == Some((block, (prefix.len() + optional_block_encoding(block).len()) as int)),
{
    let all = prefix + optional_block_encoding(block) + rest;
    match block {
        Some(b) => {
            let bytes = block_encoding(b);
            assert(all =~= prefix + seq![1u8] + (bytes + rest));
            lemma_parse_u8(prefix, 1u8, bytes + rest);
            assert(all =~= (prefix + seq![1u8]) + bytes + rest);
            lemma_parse_block(prefix + seq![1u8], b, rest);
        },
        None => {
            lemma_parse_u8(prefix, 0u8, rest);
        },
    }
}

#[verifier::rlimit(60)]
proof fn lemma_parse_propose(
    prefix: Seq<u8>,
    proposal: ProposalView,
    block: Option<WireBlock>,
    rest: Seq<u8>,
)
    requires
        proposal_sized(proposal),
        block matches Some(b) ==> block_sized(b),
    ensures
        ({
            let message = MessageView::ProposeBlock { proposal, block };
            parse_message(prefix + message_encoding(message) + rest, prefix.len() as int) == Some(
                (message, (prefix.len() + message_encoding(message).len()) as int),
            )
        }),
{
    vstd::bytes::lemma_auto_spec_u32_to_from_le_bytes();
    let message = MessageView::ProposeBlock { proposal, block };
    let all = prefix + message_encoding(message) + rest;
    let tag = spec_u32_to_le_bytes(0);
    let first = proposal_encoding(proposal);
    let second = optional_block_encoding(block);
    assert(all =~= prefix + tag + (first + second + rest));
    lemma_parse_u32(prefix, 0, first + second + rest);
    let s1 = prefix + tag;
    assert(all =~= s1 + first + (second + rest));
    lemma_parse_proposal(s1, proposal, second + rest);
    let s2 = s1 + first;
    assert(all =~= s2 + second + rest);
    lemma_parse_optional_block(s2, block, rest);
}

proof fn lemma_parse_cast_vote(prefix: Seq<u8>, vote: VoteView, rest: Seq<u8>)
    requires
        vote_sized(vote),
    ensures
        ({
            let message = MessageView::CastVote(vote);
            parse_message(prefix + message_encoding(message) + rest, prefix.len() as int) == Some(
                (message, (prefix.len() + message_encoding(message).len()) as int),
            )
        }),
{
    vstd::bytes::lemma_auto_spec_u32_to_from_le_bytes();
    let message = MessageView::CastVote(vote);
    let all = prefix + message_encoding(message) + rest;
    let tag = spec_u32_to_le_bytes(1);
    let body = vote_encoding(vote);
    assert(all =~= prefix + tag + (body + rest));
    lemma_parse_u32(prefix, 1, body + rest);
    assert(all =~= (prefix + tag) + body + rest);
    lemma_parse_vote(prefix + tag, vote, rest);
}

proof fn lemma_parse_commit(prefix: Seq<u8>, height: u64, block_hash: Seq<u8>, rest: Seq<u8>)
    requires
        block_hash.len() == 32,
    ensures
        ({
            let message = MessageView::CommitBlock { height, block_hash };
            parse_message(prefix + message_encoding(message) + rest, prefix.len() as int) == Some(
                (message, (prefix.len() + message_encoding(message).len()) as int),
            )
        }),
{
    vstd::bytes::lemma_auto_spec_u64_to_from_le_bytes();
    vstd::bytes::lemma_auto_spec_u32_to_from_le_bytes();
    let message = MessageView::CommitBlock { height, block_hash };
    let all = prefix + message_encoding(message) + rest;
    let tag = spec_u32_to_le_bytes(2);
    let h = spec_u64_to_le_bytes(height);
    assert(all =~= prefix + tag + (h + block_hash + rest));
    lemma_parse_u32(prefix, 2, h + block_hash + rest);
    let s1 = prefix + tag;
    assert(all =~= s1 + h + (block_hash + rest));
    lemma_parse_u64(s1, height, block_hash + rest);
    let s2 = s1 + h;
    assert(all =~= s2 + block_hash + rest);
    lemma_parse_fixed(s2, block_hash, rest);
}

proof fn lemma_parse_schedule(prefix: Seq<u8>, event: TimeoutEvent, rest: Seq<u8>)
    ensures
        ({
            let message = MessageView::ScheduleTimeout(event);
            parse_message(prefix + message_encoding(message) + rest, prefix.len() as int) == Some(
                (message, (prefix.len() + message_encoding(message).len()) as int),
            )
        }),
{
    vstd::bytes::lemma_auto_spec_u32_to_from_le_bytes();
    let message = MessageView::ScheduleTimeout(event);
    let all = prefix + message_encoding(message) + rest;
    let tag = spec_u32_to_le_bytes(3);
    let body = timeout_encoding(event);
    assert(all =~= prefix + tag + (body + rest));
    lemma_parse_u32(prefix, 3, body + rest);
    assert(all =~= (prefix + tag) + body + rest);
    lemma_parse_timeout(prefix + tag, event, rest);
}

/// A consensus message reads back from its encoding.
pub proof fn lemma_parse_message(prefix: Seq<u8>, message: MessageView, rest: Seq<u8>)
    requires
        message_sized(message),
    ensures
        parse_message(prefix + message_encoding(message) + rest, prefix.len() as int) == Some(
            (message, (prefix.len() + message_encoding(message).len()) as int),
        ),
{
    match message {
        MessageView::ProposeBlock { proposal, block } => {
            lemma_parse_propose(prefix, proposal, block, rest);
        },
        MessageView::CastVote(vote) => {
            lemma_parse_cast_vote(prefix, vote, rest);
        },
        MessageView::CommitBlock { height, block_hash } => {
            lemma_parse_commit(prefix, height, block_hash, rest);
        },
        MessageView::ScheduleTimeout(event) => {
            lemma_parse_schedule(prefix, event, rest);
        },
    }
}

/// Canonical encoding, then decoding, gives the transaction again.
pub proof fn law_transaction_roundtrip(tx: TransactionView)
    requires
        transaction_sized(tx),
    ensures
        parse_transaction(transaction_encoding(tx), 0) == Some(
            (tx, transaction_encoding(tx).len() as int),
        ),
{
    let empty = Seq::<u8>::empty();
    assert(empty + transaction_encoding(tx) + empty =~= transaction_encoding(tx));
    lemma_parse_transaction(empty, tx, empty);
}

/// Canonical encoding, then decoding, gives the vote again. The validator
/// of the vote must be an Ed25519 public key: other bytes do not decode.
pub proof fn law_vote_roundtrip(vote: VoteView)
    requires
        vote_sized(vote),
    ensures
        parse_vote(vote_encoding(vote), 0) == Some((vote, vote_encoding(vote).len() as int)),
{
    let empty = Seq::<u8>::empty();
    assert(empty + vote_encoding(vote) + empty =~= vote_encoding(vote));
    lemma_parse_vote(empty, vote, empty);
}

/// Canonical encoding, then decoding, gives the block again. The proposer
/// of the block must be an Ed25519 public key.
pub proof fn law_block_roundtrip(block: WireBlock)
    requires
        block_sized(block),
    ensures
        parse_block(block_encoding(block), 0) == Some((block, block_encoding(block).len() as int)),
{
    let empty = Seq::<u8>::empty();
    assert(empty + block_encoding(block) + empty =~= block_encoding(block));
    lemma_parse_block(empty, block, empty);
}

/// Canonical encoding, then decoding, gives the consensus message again.
/// The keys in the message must be Ed25519 public keys.
pub proof fn law_message_roundtrip(message: MessageView)
    requires
        message_sized(message),
    ensures
        parse_message(message_encoding(message), 0) == Some(
            (message, message_encoding(message).len() as int),
        ),
{
    let empty = Seq::<u8>::empty();
    assert(empty + message_encoding(message) + empty =~= message_encoding(message));
    lemma_parse_message(empty, message, empty);
}

/// Canonical encoding, then decoding, gives the network message again.
/// The keys in the message must be Ed25519 public keys.
pub proof fn law_network_roundtrip(sender: Seq<u8>, message: MessageView)
    requires
        sender.len() <= u64::MAX,
        message_sized(message),
    ensures
        parse_network(network_encoding(sender, message), 0) == Some(
            ((sender, message), network_encoding(sender, message).len() as int),
        ),
{
    vstd::bytes::lemma_auto_spec_u64_to_from_le_bytes();
    let empty = Seq::<u8>::empty();
    let first = bytes_encoding(sender);
    let second = message_encoding(message);
    let all = network_encoding(sender, message);
    assert(all =~= empty + first + second);
    lemma_parse_bytes(empty, sender, second);
    assert(all =~= (empty + first) + second + empty);
    lemma_parse_message(empty + first, message, empty);
    assert((empty + first).len() == 8 + sender.len());
    assert(parse_bytes(all, 0) == Some((sender, (8 + sender.len()) as int)));
    assert(parse_message(all, (8 + sender.len()) as int) == Some(
        (message, (8 + sender.len() + second.len()) as int),
    ));
}


/// The encoding of a list with one more transaction is the encoding of the
/// list followed by that of the transaction.
pub proof fn lemma_transactions_encoding_push(txs: Seq<TransactionView>, tx: TransactionView)
    ensures
        transactions_encoding(txs.push(tx)) == transactions_encoding(txs) + transaction_encoding(
            tx,
        ),
    decreases txs.len(),
{
    if txs.len() == 0 {
        assert(txs.push(tx).drop_first() =~= Seq::<TransactionView>::empty());
        assert(transactions_encoding(Seq::<TransactionView>::empty()) =~= Seq::<u8>::empty());
        assert(transactions_encoding(txs.push(tx)) =~= transaction_encoding(tx));
        assert(transactions_encoding(txs) + transaction_encoding(tx) =~= transaction_encoding(tx));
    } else {
        lemma_transactions_encoding_push(txs.drop_first(), tx);
        assert(txs.push(tx).drop_first() =~= txs.drop_first().push(tx));
        assert(transactions_encoding(txs.push(tx)) =~= transactions_encoding(txs)
            + transaction_encoding(tx));
    }
}

/// The header encoding of a block is that of its header as plain values.
pub proof fn lemma_header_encoding(header: BlockHeader)
    ensures
        header_encoding(header) == wire_header_encoding(header_view(header)),
{
    assert(header_encoding(header) =~= wire_header_encoding(header_view(header)));
}

fn write_optional_hash(buf: &mut Vec<u8>, hash: &Option<BlockHash>)
    ensures
        final(buf)@ == old(buf)@ + optional_hash_encoding(
            match *hash {
                Some(h) => Some(h.0@),
                None => None,
            },
        ),
{
    match hash {
        Some(h) => {
            buf.push(1u8);
            append_bytes(buf, h.0.as_slice());
            assert(buf@ =~= old(buf)@ + (seq![1u8] + h.0@));
        },
        None => {
            buf.push(0u8);
            assert(buf@ =~= old(buf)@ + seq![0u8]);
        },
    }
}

fn write_optional_round(buf: &mut Vec<u8>, round: &Option<Round>)
    ensures
        final(buf)@ == old(buf)@ + optional_round_encoding(
            match *round {
                Some(r) => Some(r.0),
                None => None,
            },
        ),
{
    match round {
        Some(r) => {
            buf.push(1u8);
            append_u32_le(buf, r.0);
            assert(buf@ =~= old(buf)@ + (seq![1u8] + spec_u32_to_le_bytes(r.0)));
        },
        None => {
            buf.push(0u8);
            assert(buf@ =~= old(buf)@ + seq![0u8]);
        },
    }
}

fn write_key(buf: &mut Vec<u8>, key: &[u8; 32])
    ensures
        final(buf)@ == old(buf)@ + bytes_encoding(key@),
{
    append_u64_le(buf, 32);
    append_bytes(buf, key.as_slice());
    assert(buf@ =~= old(buf)@ + bytes_encoding(key@));
}

fn write_vote(buf: &mut Vec<u8>, vote: &Vote)
    ensures
        final(buf)@ == old(buf)@ + vote_encoding(vote_view(*vote)),
{
    append_u32_le(
        buf,
        match vote.vote_type {
            VoteType::Prevote => 0u32,
            VoteType::Precommit => 1u32,
        },
    );
    append_u64_le(buf, vote.height.0);
    append_u32_le(buf, vote.round.0);
    write_optional_hash(buf, &vote.block_hash);
    write_key(buf, &vote.validator.0);
    append_bytes(buf, vote.signature.as_slice());
    assert(buf@ =~= old(buf)@ + vote_encoding(vote_view(*vote)));
}

fn write_proposal(buf: &mut Vec<u8>, proposal: &Proposal)
    ensures
        final(buf)@ == old(buf)@ + proposal_encoding(proposal_view(*proposal)),
{
    append_u64_le(buf, proposal.height.0);
    append_u32_le(buf, proposal.round.0);
    append_bytes(buf, proposal.block_hash.0.as_slice());
    write_key(buf, &proposal.proposer.0);
    append_bytes(buf, proposal.signature.as_slice());
    write_optional_round(buf, &proposal.valid_round);
    assert(buf@ =~= old(buf)@ + proposal_encoding(proposal_view(*proposal)));
}

fn write_timeout(buf: &mut Vec<u8>, event: &TimeoutEvent)
    ensures
        final(buf)@ == old(buf)@ + timeout_encoding(*event),
{
    append_u64_le(buf, event.height.0);
    append_u32_le(buf, event.round.0);
    append_u32_le(
        buf,
        match event.step {
            TimeoutStep::Propose => 0u32,
            TimeoutStep::Prevote => 1u32,
            TimeoutStep::Precommit => 2u32,
        },
    );
    assert(buf@ =~= old(buf)@ + timeout_encoding(*event));
}

fn write_block(buf: &mut Vec<u8>, block: &Block)
    ensures
        final(buf)@ == old(buf)@ + block_encoding(wire_block(block@)),
{
    let header = block.header.encode();
    append_bytes(buf, header.as_slice());
    append_u64_le(buf, block.transactions.len() as u64);
    let ghost base = buf@;
    let ghost txs = transaction_views(block.transactions@);
    let mut i: usize = 0;
    proof {
        lemma_header_encoding(block.header);
        assert(txs.subrange(0, 0) =~= Seq::<TransactionView>::empty());
        assert(buf@ =~= base + transactions_encoding(txs.subrange(0, 0)));
    }
    while i < block.transactions.len()
        invariant
            i <= block.transactions@.len(),
            txs == transaction_views(block.transactions@),
            buf@ == base + transactions_encoding(txs.subrange(0, i as int)),
        decreases block.transactions@.len() - i,
    {
        let encoded = block.transactions[i].encode();
        append_bytes(buf, encoded.as_slice());
        proof {
            lemma_transactions_encoding_push(txs.subrange(0, i as int), txs[i as int]);
            assert(txs.subrange(0, i + 1) =~= txs.subrange(0, i as int).push(txs[i as int]));
            assert(buf@ =~= base + transactions_encoding(txs.subrange(0, i + 1)));
        }
        i += 1;
    }
    proof {
        assert(txs.subrange(0, i as int) =~= txs);
        assert(buf@ =~= old(buf)@ + block_encoding(wire_block(block@)));
    }
}

fn write_message(buf: &mut Vec<u8>, message: &ConsensusMessage)
    ensures
        final(buf)@ == old(buf)@ + message_encoding(message_view(*message)),
{
    match message {
        ConsensusMessage::ProposeBlock { proposal, block } => {
            append_u32_le(buf, 0);
            write_proposal(buf, proposal);
            match block {
                Some(b) => {
                    buf.push(1u8);
                    let ghost mid = buf@;
                    write_block(buf, b);
                    assert(buf@ =~= old(buf)@ + (spec_u32_to_le_bytes(0) + proposal_encoding(
                        proposal_view(*proposal),
                    ) + (seq![1u8] + block_encoding(wire_block(b@)))));
                },
                None => {
                    buf.push(0u8);
                    assert(buf@ =~= old(buf)@ + (spec_u32_to_le_bytes(0) + proposal_encoding(
                        proposal_view(*proposal),
                    ) + seq![0u8]));
                },
            }
        },
        ConsensusMessage::CastVote(vote) => {
            append_u32_le(buf, 1);
            write_vote(buf, vote);
            assert(buf@ =~= old(buf)@ + (spec_u32_to_le_bytes(1) + vote_encoding(
                vote_view(*vote),
            )));
        },
        ConsensusMessage::CommitBlock { height, block_hash } => {
            append_u32_le(buf, 2);
            append_u64_le(buf, height.0);
            append_bytes(buf, block_hash.0.as_slice());
            assert(buf@ =~= old(buf)@ + (spec_u32_to_le_bytes(2) + spec_u64_to_le_bytes(height.0)
                + block_hash.0@));
        },
        ConsensusMessage::ScheduleTimeout(event) => {
            append_u32_le(buf, 3);
            write_timeout(buf, event);
            assert(buf@ =~= old(buf)@ + (spec_u32_to_le_bytes(3) + timeout_encoding(*event)));
        },
    }
}

fn read_optional_hash(data: &[u8], pos: usize) -> (r: Option<(Option<BlockHash>, usize)>)
    requires
        pos <= data@.len(),
    ensures
        match r {
            Some((hash, next)) => parse_optional_hash(data@, pos as int) == Some(
                (
                    match hash {
                        Some(h) => Some(h.0@),
                        None => None,
                    },
                    next as int,
                ),
            ) && next <= data@.len(),
            None => parse_optional_hash(data@, pos as int) is None,
        },
{
    let (tag, next) = match read_u8(data, pos) {
        Some(found) => found,
        None => {
            return None;
        },
    };
    if tag == 0 {
        Some((None, next))
    } else if tag == 1 {
        match read_32(data, next) {
            Some((hash, end)) => Some((Some(BlockHash(hash)), end)),
            None => None,
        }
    } else {
        None
    }
}

fn read_optional_round(data: &[u8], pos: usize) -> (r: Option<(Option<Round>, usize)>)
    requires
        pos <= data@.len(),
    ensures
        match r {
            Some((round, next)) => parse_optional_round(data@, pos as int) == Some(
                (
                    match round {
                        Some(x) => Some(x.0),
                        None => None,
                    },
                    next as int,
                ),
            ) && next <= data@.len(),
            None => parse_optional_round(data@, pos as int) is None,
        },
{
    let (tag, next) = match read_u8(data, pos) {
        Some(found) => found,
        None => {
            return None;
        },
    };
    if tag == 0 {
        Some((None, next))
    } else if tag == 1 {
        match read_u32(data, next) {
            Some((round, end)) => Some((Some(Round(round)), end)),
            None => None,
        }
    } else {
        None
    }
}

fn read_key(data: &[u8], pos: usize) -> (r: Option<([u8; 32], usize)>)
    requires
        pos <= data@.len(),
    ensures
        match r {
            Some((key, next)) => parse_key(data@, pos as int) == Some((key@, next as int)) && next
                <= data@.len(),
            None => parse_key(data@, pos as int) is None,
        },
{
    let (len, next) = match read_u64(data, pos) {
        Some(found) => found,
        None => {
            return None;
        },
    };
    if len != 32 {
        return None;
    }
    match read_32(data, next) {
        Some((key, end)) => {
            if ed25519_is_key(&key) {
                Some((key, end))
            } else {
                None
            }
        },
        None => None,
    }
}

fn read_vote(data: &[u8], pos: usize) -> (r: Option<(Vote, usize)>)
    requires
        pos <= data@.len(),
    ensures
        match r {
            Some((vote, next)) => parse_vote(data@, pos as int) == Some(
                (vote_view(vote), next as int),
            ) && next <= data@.len(),
            None => parse_vote(data@, pos as int) is None,
        },
{
    let (code, s1) = match read_u32(data, pos) {
        Some(found) => found,
        None => {
            return None;
        },
    };
    if code > 1 {
        return None;
    }
    let vote_type = if code == 0 {
        VoteType::Prevote
    } else {
        VoteType::Precommit
    };
    let (height, s2) = match read_u64(data, s1) {
        Some(found) => found,
        None => {
            return None;
        },
    };
    let (round, s3) = match read_u32(data, s2) {
        Some(found) => found,
        None => {
            return None;
        },
    };
    let (block_hash, s4) = match read_optional_hash(data, s3) {
        Some(found) => found,
        None => {
            return None;
        },
    };
    let (validator, s5) = match read_key(data, s4) {
        Some(found) => found,
        None => {
            return None;
        },
    };
    let (signature, s6) = match read_64(data, s5) {
        Some(found) => found,
        None => {
            return None;
        },
    };
    Some(
        (
            Vote {
                vote_type,
                height: Height(height),
                round: Round(round),
                block_hash,
                validator: ValidatorId(validator),
                signature,
            },
            s6,
        ),
    )
}

fn read_proposal(data: &[u8], pos: usize) -> (r: Option<(Proposal, usize)>)
    requires
        pos <= data@.len(),
    ensures
        match r {
            Some((proposal, next)) => parse_proposal(data@, pos as int) == Some(
                (proposal_view(proposal), next as int),
            ) && next <= data@.len(),
            None => parse_proposal(data@, pos as int) is None,
        },
{
    let (height, s1) = match read_u64(data, pos) {
        Some(found) => found,
        None => {
            return None;
        },
    };
    let (round, s2) = match read_u32(data, s1) {
        Some(found) => found,
        None => {
            return None;
        },
    };
    let (block_hash, s3) = match read_32(data, s2) {
        Some(found) => found,
        None => {
            return None;
        },
    };
    let (proposer, s4) = match read_key(data, s3) {
        Some(found) => found,
        None => {
            return None;
        },
    };
    let (signature, s5) = match read_64(data, s4) {
        Some(found) => found,
        None => {
            return None;
        },
    };
    let (valid_round, s6) = match read_optional_round(data, s5) {
        Some(found) => found,
        None => {
            return None;
        },
    };
    Some(
        (
            Proposal {
                height: Height(height),
                round: Round(round),
                block_hash: BlockHash(block_hash),
                proposer: ValidatorId(proposer),
                signature,
                valid_round,
            },
            s6,
        ),
    )
}

fn read_timeout(data: &[u8], pos: usize) -> (r: Option<(TimeoutEvent, usize)>)
    requires
        pos <= data@.len(),
    ensures
        match r {
            Some((event, next)) => parse_timeout(data@, pos as int) == Some((event, next as int))
                && next <= data@.len(),
            None => parse_timeout(data@, pos as int) is None,
        },
{
    let (height, s1) = match read_u64(data, pos) {
        Some(found) => found,
        None => {
            return None;
        },
    };
    let (round, s2) = match read_u32(data, s1) {
        Some(found) => found,
        None => {
            return None;
        },
    };
    let (code, s3) = match read_u32(data, s2) {
        Some(found) => found,
        None => {
            return None;
        },
    };
    if code > 2 {
        return None;
    }
    let step = if code == 0 {
        TimeoutStep::Propose
    } else if code == 1 {
        TimeoutStep::Prevote
    } else {
        TimeoutStep::Precommit
    };
    Some((TimeoutEvent { height: Height(height), round: Round(round), step }, s3))
}

fn read_header(data: &[u8], pos: usize) -> (r: Option<(BlockHeader, usize)>)
    requires
        pos <= data@.len(),
    ensures
        match r {
            Some((header, next)) => parse_header(data@, pos as int) == Some(
                (header_view(header), next as int),
            ) && next <= data@.len(),
            None => parse_header(data@, pos as int) is None,
        },
{
    let (height, s1) = match read_u64(data, pos) {
        Some(found) => found,
        None => {
            return None;
        },
    };
    let (timestamp, s2) = match read_u64(data, s1) {
        Some(found) => found,
        None => {
            return None;
        },
    };
    let (parent_hash, s3) = match read_32(data, s2) {
        Some(found) => found,
        None => {
            return None;
        },
    };
    let (proposer, s4) = match read_key(data, s3) {
        Some(found) => found,
        None => {
            return None;
        },
    };
    let (state_root, s5) = match read_32(data, s4) {
        Some(found) => found,
        None => {
            return None;
        },
    };
    let (tx_merkle_root, s6) = match read_32(data, s5) {
        Some(found) => found,
        None => {
            return None;
        },
    };
    Some(
        (
            BlockHeader {
                height: Height(height),
                timestamp,
                parent_hash: BlockHash(parent_hash),
                proposer: ValidatorId(proposer),
                state_root,
                tx_merkle_root,
            },
            s6,
        ),
    )
}

/// Joining a parsed transaction to those that were parsed before it.
proof fn lemma_parse_transactions_step(data: Seq<u8>, pos: int, count: nat)
    requires
        count > 0,
    ensures
        parse_transactions(data, pos, count) == (match parse_transaction(data, pos) {
            None => None,
            Some((first, next)) => match parse_transactions(data, next, (count - 1) as nat) {
                None => None,
                Some((rest, end)) => Some((seq![first] + rest, end)),
            },
        }),
{
}

fn read_block(data: &[u8], pos: usize) -> (r: Option<(Block, usize)>)
    requires
        pos <= data@.len(),
    ensures
        match r {
            Some((block, next)) => parse_block(data@, pos as int) == Some(
                (wire_block(block@), next as int),
            ) && next <= data@.len(),
            None => parse_block(data@, pos as int) is None,
        },
{
    let (header, s1) = match read_header(data, pos) {
        Some(found) => found,
        None => {
            return None;
        },
    };
    let (count, s2) = match read_u64(data, s1) {
        Some(found) => found,
        None => {
            return None;
        },
    };
    let mut transactions: Vec<Transaction> = Vec::new();
    let mut at: usize = s2;
    let mut i: u64 = 0;
    let ghost whole = parse_transactions(data@, s2 as int, count as nat);
    proof {
        assert(transaction_views(transactions@) =~= Seq::<TransactionView>::empty());
        match parse_transactions(data@, s2 as int, count as nat) {
            Some((rest, end)) => {
                assert(Seq::<TransactionView>::empty() + rest =~= rest);
            },
            None => {},
        }
    }
    while i < count
        invariant
            i <= count,
            at <= data@.len(),
            parse_header(data@, pos as int) == Some((header_view(header), s1 as int)),
            parse_u64(data@, s1 as int) == Some((count, s2 as int)),
            whole == parse_transactions(data@, s2 as int, count as nat),
            whole == (match parse_transactions(data@, at as int, (count - i) as nat) {
                Some((rest, end)) => Some((transaction_views(transactions@) + rest, end)),
                None => None,
            }),
        decreases count - i,
    {
        proof {
            lemma_parse_transactions_step(data@, at as int, (count - i) as nat);
        }
        let ghost before = transaction_views(transactions@);
        match read_transaction(data, at) {
            Some((tx, next)) => {
                transactions.push(tx);
                proof {
                    assert(transaction_views(transactions@) =~= before.push(tx@));
                    match parse_transactions(data@, next as int, (count - i - 1) as nat) {
                        Some((rest, end)) => {
                            assert(before + (seq![tx@] + rest) =~= before.push(tx@) + rest);
                        },
                        None => {},
                    }
                }
                at = next;
            },
            None => {
                return None;
            },
        }
        i += 1;
    }
    proof {
        assert(transaction_views(transactions@) + Seq::<TransactionView>::empty()
            =~= transaction_views(transactions@));
    }
    Some((Block { header, transactions }, at))
}

fn read_message(data: &[u8], pos: usize) -> (r: Option<(ConsensusMessage, usize)>)
    requires
        pos <= data@.len(),
    ensures
        match r {
            Some((message, next)) => parse_message(data@, pos as int) == Some(
                (message_view(message), next as int),
            ) && next <= data@.len(),
            None => parse_message(data@, pos as int) is None,
        },
{
    let (variant, s1) = match read_u32(data, pos) {
        Some(found) => found,
        None => {
            return None;
        },
    };
    if variant == 0 {
        let (proposal, s2) = match read_proposal(data, s1) {
            Some(found) => found,
            None => {
                return None;
            },
        };
        let (tag, s3) = match read_u8(data, s2) {
            Some(found) => found,
            None => {
                return None;
            },
        };
        if tag == 0 {
            Some((ConsensusMessage::ProposeBlock { proposal, block: None }, s3))
        } else if tag == 1 {
            match read_block(data, s3) {
                Some((block, s4)) => Some(
                    (ConsensusMessage::ProposeBlock { proposal, block: Some(block) }, s4),
                ),
                None => None,
            }
        } else {
            None
        }
    } else if variant == 1 {
        match read_vote(data, s1) {
            Some((vote, s2)) => Some((ConsensusMessage::CastVote(vote), s2)),
            None => None,
        }
    } else if variant == 2 {
        let (height, s2) = match read_u64(data, s1) {
            Some(found) => found,
            None => {
                return None;
            },
        };
        match read_32(data, s2) {
            Some((hash, s3)) => Some(
                (
                    ConsensusMessage::CommitBlock {
                        height: Height(height),
                        block_hash: BlockHash(hash),
                    },
                    s3,
                ),
            ),
            None => None,
        }
    } else if variant == 3 {
        match read_timeout(data, s1) {
            Some((event, s2)) => Some((ConsensusMessage::ScheduleTimeout(event), s2)),
            None => None,
        }
    } else {
        None
    }
}

/// The canonical encoding of a transaction.
pub fn encode_transaction(tx: &Transaction) -> (r: Result<Vec<u8>, CodecError>)
    ensures
        r matches Ok(bytes) && bytes@ == transaction_encoding(tx@),
{
    Ok(tx.encode())
}

/// The transaction that `data` starts with. Fails for input that is cut
/// short; bytes behind the transaction are ignored.
pub fn decode_transaction(data: &[u8]) -> (r: Result<Transaction, CodecError>)
    ensures
        match parse_transaction(data@, 0) {
            Some((view, end)) => r matches Ok(tx) && tx@ == view,
            None => r is Err,
        },
{
    match read_transaction(data, 0) {
        Some((tx, _)) => Ok(tx),
        None => Err(malformed()),
    }
}

/// The canonical encoding of a vote.
pub fn encode_vote(vote: &Vote) -> (bytes: Vec<u8>)
    ensures
        bytes@ == vote_encoding(vote_view(*vote)),
{
    let mut buf: Vec<u8> = Vec::new();
    write_vote(&mut buf, vote);
    assert(buf@ =~= vote_encoding(vote_view(*vote)));
    buf
}

/// The vote that `data` starts with.
pub fn decode_vote(data: &[u8]) -> (r: Result<Vote, CodecError>)
    ensures
        match parse_vote(data@, 0) {
            Some((view, end)) => r matches Ok(vote) && vote_view(vote) == view,
            None => r is Err,
        },
{
    match read_vote(data, 0) {
        Some((vote, _)) => Ok(vote),
        None => Err(malformed()),
    }
}

/// The canonical encoding of a block.
pub fn encode_block(block: &Block) -> (bytes: Vec<u8>)
    ensures
        bytes@ == block_encoding(wire_block(block@)),
{
    let mut buf: Vec<u8> = Vec::new();
    write_block(&mut buf, block);
    assert(buf@ =~= block_encoding(wire_block(block@)));
    buf
}

/// The block that `data` starts with.
pub fn decode_block(data: &[u8]) -> (r: Result<Block, CodecError>)
    ensures
        match parse_block(data@, 0) {
            Some((view, end)) => r matches Ok(block) && wire_block(block@) == view,
            None => r is Err,
        },
{
    match read_block(data, 0) {
        Some((block, _)) => Ok(block),
        None => Err(malformed()),
    }
}

/// The canonical encoding of a consensus message.
pub fn encode_consensus_message(msg: &ConsensusMessage) -> (r: Result<Vec<u8>, CodecError>)
    ensures
        r matches Ok(bytes) && bytes@ == message_encoding(message_view(*msg)),
{
    let mut buf: Vec<u8> = Vec::new();
    write_message(&mut buf, msg);
    assert(buf@ =~= message_encoding(message_view(*msg)));
    Ok(buf)
}

/// The consensus message that `data` starts with.
pub fn decode_consensus_message(data: &[u8]) -> (r: Result<ConsensusMessage, CodecError>)
    ensures
        match parse_message(data@, 0) {
            Some((view, end)) => r matches Ok(message) && message_view(message) == view,
            None => r is Err,
        },
{
    match read_message(data, 0) {
        Some((message, _)) => Ok(message),
        None => Err(malformed()),
    }
}

/// A consensus message with the identity of the peer that sent it.
#[derive(Debug, Clone)]
pub struct NetworkMessage {
    /// The peer identity of the sender, as bytes.
    pub sender: Vec<u8>,
    pub message: ConsensusMessage,
}

impl NetworkMessage {
    /// The canonical encoding of the message.
    pub fn encode(&self) -> (r: Result<Vec<u8>, CodecError>)
        ensures
            r matches Ok(bytes) && bytes@ == network_encoding(
                self.sender@,
                message_view(self.message),
            ),
    {
        let mut buf: Vec<u8> = Vec::new();
        append_u64_le(&mut buf, self.sender.len() as u64);
        append_bytes(&mut buf, self.sender.as_slice());
        write_message(&mut buf, &self.message);
        assert(buf@ =~= network_encoding(self.sender@, message_view(self.message)));
        Ok(buf)
    }

    /// The network message that `data` starts with.
    pub fn decode(data: &[u8]) -> (r: Result<Self, CodecError>)
        ensures
            match parse_network(data@, 0) {
                Some((view, end)) => r matches Ok(message) && (
                    message.sender@,
                    message_view(message.message),
                ) == view,
                None => r is Err,
            },
    {
        let (sender, next) = match read_bytes(data, 0) {
            Some(found) => found,
            None => {
                return Err(malformed());
            },
        };
        match read_message(data, next) {
            Some((message, _)) => Ok(NetworkMessage { sender, message }),
            None => Err(malformed()),
        }
    }
}


} // verus!
