//! Transactions, block headers and blocks, with their canonical byte
//! encodings, hashes and the Merkle root over a block's transactions.

use vstd::prelude::*;
use vstd::bytes::spec_u64_to_le_bytes;
use crate::bft::types::{BlockHash, Height, ValidatorId};
use crate::bytes::{append_bytes, append_u64_le, zero_bytes32};
use crate::crypto::{
    ed25519_public_key,
    ed25519_sign,
    ed25519_signature,
    ed25519_verifies,
    ed25519_verify,
    sha256,
    sha256_digest,
};

verus! {

/// A transfer of `amount` from `from` to `to`, valid at the sender's `nonce`.
#[derive(Debug, PartialEq, Eq)]
pub struct Transaction {
    pub from: [u8; 32],
    pub to: [u8; 32],
    pub amount: u64,
    pub nonce: u64,
    pub signature: Vec<u8>,
    pub data: Vec<u8>,
}

/// A transaction as plain values.
pub struct TransactionView {
    pub from: Seq<u8>,
    pub to: Seq<u8>,
    pub amount: u64,
    pub nonce: u64,
    pub signature: Seq<u8>,
    pub data: Seq<u8>,
}

impl View for Transaction {
    type V = TransactionView;

    open spec fn view(&self) -> TransactionView {
        TransactionView {
            from: self.from@,
            to: self.to@,
            amount: self.amount,
            nonce: self.nonce,
            signature: self.signature@,
            data: self.data@,
        }
    }
}

impl Clone for Transaction {
    fn clone(&self) -> (copy: Self)
        ensures
            copy@ == self@,
    {
        Transaction {
            from: self.from,
            to: self.to,
            amount: self.amount,
            nonce: self.nonce,
            signature: self.signature.clone(),
            data: self.data.clone(),
        }
    }
}

/// What is hashed to get the message that a transaction's signature covers:
/// sender, receiver, amount, nonce and data. The signature is no part of it.
pub open spec fn signing_preimage(tx: TransactionView) -> Seq<u8> {
    tx.from + tx.to + spec_u64_to_le_bytes(tx.amount) + spec_u64_to_le_bytes(tx.nonce) + tx.data
}

/// The message that a transaction's signature covers.
pub open spec fn signing_digest(tx: TransactionView) -> Seq<u8> {
    sha256_digest(signing_preimage(tx))
}

/// The canonical encoding of a transaction: every field in order, the two
/// byte strings each behind their length as eight little-endian bytes.
pub open spec fn transaction_encoding(tx: TransactionView) -> Seq<u8> {
    tx.from + tx.to + spec_u64_to_le_bytes(tx.amount) + spec_u64_to_le_bytes(tx.nonce)
        + spec_u64_to_le_bytes(tx.signature.len() as u64) + tx.signature + spec_u64_to_le_bytes(
        tx.data.len() as u64,
    ) + tx.data
}

/// The hash of a transaction: the digest of its canonical encoding, which
/// covers the signature too.
pub open spec fn transaction_hash(tx: TransactionView) -> Seq<u8> {
    sha256_digest(transaction_encoding(tx))
}

/// Whether a transaction carries a 64-byte signature that is accepted for
/// its signing message under the sender's key.
pub open spec fn transaction_signed(tx: TransactionView) -> bool {
    tx.signature.len() == 64 && ed25519_verifies(tx.from, signing_digest(tx), tx.signature)
}

impl Transaction {
    /// The message to sign: SHA-256 over sender, receiver, amount, nonce and data.
    pub fn signing_message(&self) -> (message: [u8; 32])
        ensures
            message@ == signing_digest(self@),
    {
        let mut buf: Vec<u8> = Vec::new();
        append_bytes(&mut buf, self.from.as_slice());
        append_bytes(&mut buf, self.to.as_slice());
        append_u64_le(&mut buf, self.amount);
        append_u64_le(&mut buf, self.nonce);
        append_bytes(&mut buf, self.data.as_slice());
        assert(buf@ =~= signing_preimage(self@));
        sha256(buf.as_slice())
    }

    /// Signs the transaction with a secret key and stores the signature. If
    /// the sender is the public key of that secret key, the signed
    /// transaction verifies.
    pub fn sign(&mut self, secret_key: &[u8; 32])
        ensures
            final(self)@ == (TransactionView {
                signature: ed25519_signature(secret_key@, signing_digest(old(self)@)),
                ..old(self)@
            }),
            final(self)@.signature.len() == 64,
            old(self)@.from == ed25519_public_key(secret_key@) ==> transaction_signed(
                final(self)@,
            ),
    {
        let message = self.signing_message();
        let signature = ed25519_sign(secret_key, message.as_slice());
        let mut stored: Vec<u8> = Vec::new();
        append_bytes(&mut stored, signature.as_slice());
        assert(stored@ =~= signature@);
        self.signature = stored;
        proof {
            assert(signing_preimage(self@) == signing_preimage(old(self)@));
        }
    }

    /// Whether the signature is 64 bytes long and accepted for the signing
    /// message under the sender's key.
    pub fn verify_signature(&self) -> (ok: bool)
        ensures
            ok == transaction_signed(self@),
    {
        if self.signature.len() != 64 {
            return false;
        }
        let mut signature = [0u8; 64];
        let mut i: usize = 0;
        while i < 64
            invariant
                i <= 64,
                self.signature@.len() == 64,
                forall|j: int| 0 <= j < i ==> signature@[j] == self.signature@[j],
            decreases 64 - i,
        {
            signature[i] = self.signature[i];
            i += 1;
        }
        assert(signature@ =~= self.signature@);
        let message = self.signing_message();
        ed25519_verify(&self.from, message.as_slice(), &signature)
    }

    /// The canonical encoding of the transaction.
    pub fn encode(&self) -> (bytes: Vec<u8>)
        ensures
            bytes@ == transaction_encoding(self@),
    {
        let mut buf: Vec<u8> = Vec::new();
        append_bytes(&mut buf, self.from.as_slice());
        append_bytes(&mut buf, self.to.as_slice());
        append_u64_le(&mut buf, self.amount);
        append_u64_le(&mut buf, self.nonce);
        append_u64_le(&mut buf, self.signature.len() as u64);
        append_bytes(&mut buf, self.signature.as_slice());
        append_u64_le(&mut buf, self.data.len() as u64);
        append_bytes(&mut buf, self.data.as_slice());
        assert(buf@ =~= transaction_encoding(self@));
        buf
    }

    /// The hash of the transaction.
    pub fn hash(&self) -> (digest: [u8; 32])
        ensures
            digest@ == transaction_hash(self@),
    {
        let encoded = self.encode();
        sha256(encoded.as_slice())
    }
}

/// The metadata of a block.
#[derive(Debug, Clone, Copy, PartialEq, Eq)]
pub struct BlockHeader {
    pub height: Height,
    pub timestamp: u64,
    pub parent_hash: BlockHash,
    pub proposer: ValidatorId,
    pub state_root: [u8; 32],
    pub tx_merkle_root: [u8; 32],
}

/// The canonical encoding of a header: height, timestamp, parent hash, the
/// proposer's key behind its length, state root and transaction root.
pub open spec fn header_encoding(header: BlockHeader) -> Seq<u8> {
    spec_u64_to_le_bytes(header.height.0) + spec_u64_to_le_bytes(header.timestamp)
        + header.parent_hash.0@ + spec_u64_to_le_bytes(32) + header.proposer.0@
        + header.state_root@ + header.tx_merkle_root@
}

impl BlockHeader {
    /// The canonical encoding of the header.
    pub fn encode(&self) -> (bytes: Vec<u8>)
        ensures
            bytes@ == header_encoding(*self),
    {
        let mut buf: Vec<u8> = Vec::new();
        append_u64_le(&mut buf, self.height.0);
        append_u64_le(&mut buf, self.timestamp);
        append_bytes(&mut buf, self.parent_hash.0.as_slice());
        append_u64_le(&mut buf, 32);
        append_bytes(&mut buf, self.proposer.0.as_slice());
        append_bytes(&mut buf, self.state_root.as_slice());
        append_bytes(&mut buf, self.tx_merkle_root.as_slice());
        assert(buf@ =~= header_encoding(*self));
        buf
    }
}

/// A header with the transactions of the block, in order.
#[derive(Debug, PartialEq, Eq)]
pub struct Block {
    pub header: BlockHeader,
    pub transactions: Vec<Transaction>,
}

/// A block as plain values.
pub struct BlockView {
    pub header: BlockHeader,
    pub transactions: Seq<TransactionView>,
}

/// The transactions of a sequence as plain values.
pub open spec fn transaction_views(txs: Seq<Transaction>) -> Seq<TransactionView> {
    Seq::new(txs.len(), |i: int| txs[i]@)
}

impl View for Block {
    type V = BlockView;

    open spec fn view(&self) -> BlockView {
        BlockView { header: self.header, transactions: transaction_views(self.transactions@) }
    }
}

impl Clone for Block {
    fn clone(&self) -> (copy: Self)
        ensures
            copy@ == self@,
    {
        let mut transactions: Vec<Transaction> = Vec::new();
        let mut i: usize = 0;
        while i < self.transactions.len()
            invariant
                i <= self.transactions@.len(),
                transactions@.len() == i,
                transaction_views(transactions@) == transaction_views(
                    self.transactions@,
                ).subrange(0, i as int),
            decreases self.transactions@.len() - i,
        {
            let ghost before = transactions@;
            transactions.push(self.transactions[i].clone());
            assert(transaction_views(transactions@) =~= transaction_views(
                self.transactions@,
            ).subrange(0, i + 1)) by {
                let a = transaction_views(transactions@);
                let b = transaction_views(self.transactions@);
                assert forall|j: int| 0 <= j < i + 1 implies a[j] == b[j] by {
                    if j < i {
                        assert(a[j] == transaction_views(before)[j]);
                        assert(transaction_views(before)[j] == b.subrange(0, i as int)[j]);
                    }
                }
            }
            i += 1;
        }
        assert(transaction_views(transactions@) =~= transaction_views(self.transactions@));
        Block { header: self.header, transactions }
    }
}

/// The hash of a block: the digest of its header's canonical encoding.
pub open spec fn block_hash(header: BlockHeader) -> Seq<u8> {
    sha256_digest(header_encoding(header))
}

/// The node above two nodes of the Merkle tree.
pub open spec fn merkle_parent(left: Seq<u8>, right: Seq<u8>) -> Seq<u8> {
    sha256_digest(left + right)
}

/// The level above `level`: each pair of neighbours gives one node, and a
/// last node without a neighbour is paired with itself.
pub open spec fn merkle_next_level(level: Seq<Seq<u8>>) -> Seq<Seq<u8>> {
    Seq::new(
        ((level.len() + 1) / 2) as nat,
        |i: int|
            merkle_parent(
                level[2 * i],
                if 2 * i + 1 < level.len() {
                    level[2 * i + 1]
                } else {
                    level[2 * i]
                },
            ),
    )
}

/// The root above a level of the Merkle tree; thirty-two zero bytes above
/// an empty level.
pub open spec fn merkle_fold(level: Seq<Seq<u8>>) -> Seq<u8>
    decreases level.len(),
{
    if level.len() == 0 {
        zero_bytes32()
    } else if level.len() == 1 {
        level[0]
    } else {
        merkle_fold(merkle_next_level(level))
    }
}

/// The leaves of the tree: the hash of each transaction.
pub open spec fn merkle_leaves(txs: Seq<TransactionView>) -> Seq<Seq<u8>> {
    Seq::new(txs.len(), |i: int| transaction_hash(txs[i]))
}

/// The Merkle root of a list of transactions.
pub open spec fn tx_merkle_root(txs: Seq<TransactionView>) -> Seq<u8> {
    merkle_fold(merkle_leaves(txs))
}

/// The nodes of a level as byte strings.
pub open spec fn level_views(level: Seq<[u8; 32]>) -> Seq<Seq<u8>> {
    Seq::new(level.len(), |i: int| level[i]@)
}

impl Block {
    /// The hash of the block, which covers the header only.
    pub fn hash(&self) -> (digest: BlockHash)
        ensures
            digest.0@ == block_hash(self.header),
    {
        let encoded = self.header.encode();
        BlockHash(sha256(encoded.as_slice()))
    }

    /// The Merkle root of `transactions`: a binary SHA-256 tree over the
    /// transaction hashes. It is thirty-two zero bytes for no transaction.
    pub fn compute_tx_merkle_root(transactions: &[Transaction]) -> (root: [u8; 32])
        ensures
            root@ == tx_merkle_root(transaction_views(transactions@)),
            transactions@.len() == 0 ==> root@ == zero_bytes32(),
    {
        if transactions.len() == 0 {
            let zero = [0u8; 32];
            assert(zero@ =~= zero_bytes32());
            return zero;
        }
        let ghost txs = transaction_views(transactions@);
        let mut leaves: Vec<[u8; 32]> = Vec::new();
        let mut i: usize = 0;
        while i < transactions.len()
            invariant
                i <= transactions@.len(),
                txs == transaction_views(transactions@),
                leaves@.len() == i,
                level_views(leaves@) == merkle_leaves(txs).subrange(0, i as int),
            decreases transactions@.len() - i,
        {
            let leaf = transactions[i].hash();
            let ghost before = leaves@;
            leaves.push(leaf);
            assert(level_views(leaves@) =~= merkle_leaves(txs).subrange(0, i + 1)) by {
                let a = level_views(leaves@);
                let b = merkle_leaves(txs);
                assert forall|j: int| 0 <= j < i + 1 implies a[j] == b[j] by {
                    if j < i {
                        assert(a[j] == level_views(before)[j]);
                        assert(level_views(before)[j] == b.subrange(0, i as int)[j]);
                    }
                }
            }
            i += 1;
        }
        assert(level_views(leaves@) =~= merkle_leaves(txs));
        while leaves.len() > 1
            invariant
                leaves@.len() >= 1,
                merkle_fold(level_views(leaves@)) == tx_merkle_root(txs),
            decreases leaves@.len(),
        {
            let ghost level = level_views(leaves@);
            let mut next: Vec<[u8; 32]> = Vec::new();
            let count: usize = leaves.len();
            let half: usize = count / 2 + count % 2;
            let mut j: usize = 0;
            while j < half
                invariant
                    j <= half,
                    count == leaves@.len(),
                    half == (count + 1) / 2,
                    level == level_views(leaves@),
                    next@.len() == j,
                    forall|n: int|
                        0 <= n < next@.len() ==> (#[trigger] next@[n])@ == merkle_next_level(
                            level,
                        )[n],
                decreases half - j,
            {
                let k: usize = 2 * j;
                let mut pair: Vec<u8> = Vec::new();
                append_bytes(&mut pair, leaves[k].as_slice());
                if k + 1 < count {
                    append_bytes(&mut pair, leaves[k + 1].as_slice());
                } else {
                    append_bytes(&mut pair, leaves[k].as_slice());
                }
                let node = sha256(pair.as_slice());
                proof {
                    assert(level[k as int] == leaves@[k as int]@);
                    if k + 1 < leaves@.len() {
                        assert(level[k + 1] == leaves@[k + 1]@);
                    }
                    assert(node@ == merkle_next_level(level)[j as int]);
                }
                next.push(node);
                j += 1;
            }
            proof {
                assert(level_views(next@) =~= merkle_next_level(level));
            }
            leaves = next;
        }
        proof {
            assert(level_views(leaves@)[0] == leaves@[0]@);
        }
        leaves[0]
    }
}

} // verus!
