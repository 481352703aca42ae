//! Reading the canonical binary encoding: integers in little-endian bytes,
//! byte strings behind their lengths, and the fields of a transaction.

use vstd::prelude::*;
use vstd::bytes::{
    lemma_auto_spec_u32_to_from_le_bytes,
    lemma_auto_spec_u64_to_from_le_bytes,
    spec_u32_from_le_bytes,
    spec_u32_to_le_bytes,
    spec_u64_from_le_bytes,
    spec_u64_to_le_bytes,
    u32_from_le_bytes,
    u64_from_le_bytes,
};
use vstd::slice::slice_subrange;
use crate::bft::block::{Transaction, TransactionView, transaction_encoding};
use crate::bytes::{copy_range, read_array32, read_array64};

verus! {

/// The `n` bytes of `data` from `pos` on, if there are as many.
pub open spec fn take(data: Seq<u8>, pos: int, n: int) -> Option<Seq<u8>> {
    if 0 <= pos && 0 <= n && pos + n <= data.len() {
        Some(data.subrange(pos, pos + n))
    } else {
        None
    }
}

/// The 64-bit number at `pos`, and the position behind it.
pub open spec fn parse_u64(data: Seq<u8>, pos: int) -> Option<(u64, int)> {
    match take(data, pos, 8) {
        Some(bytes) => Some((spec_u64_from_le_bytes(bytes), pos + 8)),
        None => None,
    }
}

/// The 32-bit number at `pos`, and the position behind it.
pub open spec fn parse_u32(data: Seq<u8>, pos: int) -> Option<(u32, int)> {
    match take(data, pos, 4) {
        Some(bytes) => Some((spec_u32_from_le_bytes(bytes), pos + 4)),
        None => None,
    }
}

/// The byte at `pos`, and the position behind it.
pub open spec fn parse_u8(data: Seq<u8>, pos: int) -> Option<(u8, int)> {
    match take(data, pos, 1) {
        Some(bytes) => Some((bytes[0], pos + 1)),
        None => None,
    }
}

/// The `n` bytes at `pos`, and the position behind them.
pub open spec fn parse_fixed(data: Seq<u8>, pos: int, n: int) -> Option<(Seq<u8>, int)> {
    match take(data, pos, n) {
        Some(bytes) => Some((bytes, pos + n)),
        None => None,
    }
}

/// The byte string at `pos`, which stands behind its length as eight
/// little-endian bytes, and the position behind it.
pub open spec fn parse_bytes(data: Seq<u8>, pos: int) -> Option<(Seq<u8>, int)> {
    match parse_u64(data, pos) {
        Some((len, next)) => parse_fixed(data, next, len as int),
        None => None,
    }
}

/// The encoding of a byte string: its length as eight little-endian bytes,
/// then the bytes.
pub open spec fn bytes_encoding(bytes: Seq<u8>) -> Seq<u8> {
    spec_u64_to_le_bytes(bytes.len() as u64) + bytes
}

/// The transaction at `pos`, and the position behind it.
pub open spec fn parse_transaction(data: Seq<u8>, pos: int) -> Option<(TransactionView, int)> {
    match parse_fixed(data, pos, 32) {
        None => None,
        Some((from, s1)) => match parse_fixed(data, s1, 32) {
            None => None,
            Some((to, s2)) => match parse_u64(data, s2) {
                None => None,
                Some((amount, s3)) => match parse_u64(data, s3) {
                    None => None,
                    Some((nonce, s4)) => match parse_bytes(data, s4) {
                        None => None,
                        Some((signature, s5)) => match parse_bytes(data, s5) {
                            None => None,
                            Some((payload, s6)) => Some(
                                (
                                    TransactionView {
                                        from,
                                        to,
                                        amount,
                                        nonce,
                                        signature,
                                        data: payload,
                                    },
                                    s6,
                                ),
                            ),
                        },
                    },
                },
            },
        },
    }
}

/// Reads the 64-bit number at `pos`.
pub fn read_u64(data: &[u8], pos: usize) -> (r: Option<(u64, usize)>)
    requires
        pos <= data@.len(),
    ensures
        match r {
            Some((value, next)) => parse_u64(data@, pos as int) == Some((value, next as int))
                && next <= data@.len(),
            None => parse_u64(data@, pos as int) is None,
        },
{
    if data.len() - pos < 8 {
        return None;
    }
    let value = u64_from_le_bytes(slice_subrange(data, pos, pos + 8));
    Some((value, pos + 8))
}

/// Reads the 32-bit number at `pos`.
pub fn read_u32(data: &[u8], pos: usize) -> (r: Option<(u32, usize)>)
    requires
        pos <= data@.len(),
    ensures
        match r {
            Some((value, next)) => parse_u32(data@, pos as int) == Some((value, next as int))
                && next <= data@.len(),
            None => parse_u32(data@, pos as int) is None,
        },
{
    if data.len() - pos < 4 {
        return None;
    }
    let value = u32_from_le_bytes(slice_subrange(data, pos, pos + 4));
    Some((value, pos + 4))
}

/// Reads the byte at `pos`.
pub fn read_u8(data: &[u8], pos: usize) -> (r: Option<(u8, usize)>)
    requires
        pos <= data@.len(),
    ensures
        match r {
            Some((value, next)) => parse_u8(data@, pos as int) == Some((value, next as int))
                && next <= data@.len(),
            None => parse_u8(data@, pos as int) is None,
        },
{
    if data.len() - pos < 1 {
        return None;
    }
    Some((data[pos], pos + 1))
}

/// Reads the thirty-two bytes at `pos`.
pub fn read_32(data: &[u8], pos: usize) -> (r: Option<([u8; 32], usize)>)
    requires
        pos <= data@.len(),
    ensures
        match r {
            Some((value, next)) => parse_fixed(data@, pos as int, 32) == Some(
                (value@, next as int),
            ) && next <= data@.len(),
            None => parse_fixed(data@, pos as int, 32) is None,
        },
{
    if data.len() - pos < 32 {
        return None;
    }
    Some((read_array32(data, pos), pos + 32))
}

/// Reads the sixty-four bytes at `pos`.
pub fn read_64(data: &[u8], pos: usize) -> (r: Option<([u8; 64], usize)>)
    requires
        pos <= data@.len(),
    ensures
        match r {
            Some((value, next)) => parse_fixed(data@, pos as int, 64) == Some(
                (value@, next as int),
            ) && next <= data@.len(),
            None => parse_fixed(data@, pos as int, 64) is None,
        },
{
    if data.len() - pos < 64 {
        return None;
    }
    Some((read_array64(data, pos), pos + 64))
}

/// Reads the byte string at `pos`, which stands behind its length.
pub fn read_bytes(data: &[u8], pos: usize) -> (r: Option<(Vec<u8>, usize)>)
    requires
        pos <= data@.len(),
    ensures
        match r {
            Some((value, next)) => parse_bytes(data@, pos as int) == Some((value@, next as int))
                && next <= data@.len(),
            None => parse_bytes(data@, pos as int) is None,
        },
{
    let (len, next) = match read_u64(data, pos) {
        Some(found) => found,
        None => {
            return None;
        },
    };
    let left: usize = data.len() - next;
    if len > left as u64 {
        return None;
    }
    let end: usize = next + len as usize;
    Some((copy_range(data, next, end), end))
}

/// Reads the transaction at `pos`.
pub fn read_transaction(data: &[u8], pos: usize) -> (r: Option<(Transaction, usize)>)
    requires
        pos <= data@.len(),
    ensures
        match r {
            Some((tx, next)) => parse_transaction(data@, pos as int) == Some((tx@, next as int))
                && next <= data@.len(),
            None => parse_transaction(data@, pos as int) is None,
        },
{
    let (from, s1) = match read_32(data, pos) {
        Some(found) => found,
        None => {
            return None;
        },
    };
    let (to, s2) = match read_32(data, s1) {
        Some(found) => found,
        None => {
            return None;
        },
    };
    let (amount, s3) = match read_u64(data, s2) {
        Some(found) => found,
        None => {
            return None;
        },
    };
    let (nonce, s4) = match read_u64(data, s3) {
        Some(found) => found,
        None => {
            return None;
        },
    };
    let (signature, s5) = match read_bytes(data, s4) {
        Some(found) => found,
        None => {
            return None;
        },
    };
    let (payload, s6) = match read_bytes(data, s5) {
        Some(found) => found,
        None => {
            return None;
        },
    };
    Some((Transaction { from, to, amount, nonce, signature, data: payload }, s6))
}

/// A field that stands at `prefix.len()` in `prefix + field + rest` is
/// taken from there.
pub proof fn lemma_take_field(prefix: Seq<u8>, field: Seq<u8>, rest: Seq<u8>)
    ensures
        take(prefix + field + rest, prefix.len() as int, field.len() as int) == Some(field),
{
    assert((prefix + field + rest).subrange(
        prefix.len() as int,
        (prefix.len() + field.len()) as int,
    ) =~= field);
}

/// A 64-bit number reads back from its encoding.
pub proof fn lemma_parse_u64(prefix: Seq<u8>, value: u64, rest: Seq<u8>)
    ensures
        parse_u64(prefix + spec_u64_to_le_bytes(value) + rest, prefix.len() as int) == Some(
            (value, (prefix.len() + 8) as int),
        ),
{
    lemma_auto_spec_u64_to_from_le_bytes();
    lemma_take_field(prefix, spec_u64_to_le_bytes(value), rest);
}

/// A 32-bit number reads back from its encoding.
pub proof fn lemma_parse_u32(prefix: Seq<u8>, value: u32, rest: Seq<u8>)
    ensures
        parse_u32(prefix + spec_u32_to_le_bytes(value) + rest, prefix.len() as int) == Some(
            (value, (prefix.len() + 4) as int),
        ),
{
    lemma_auto_spec_u32_to_from_le_bytes();
    lemma_take_field(prefix, spec_u32_to_le_bytes(value), rest);
}

/// A byte reads back.
pub proof fn lemma_parse_u8(prefix: Seq<u8>, value: u8, rest: Seq<u8>)
    ensures
        parse_u8(prefix + seq![value] + rest, prefix.len() as int) == Some(
            (value, (prefix.len() + 1) as int),
        ),
{
    lemma_take_field(prefix, seq![value], rest);
}

/// A field of a known length reads back.
pub proof fn lemma_parse_fixed(prefix: Seq<u8>, field: Seq<u8>, rest: Seq<u8>)
    ensures
        parse_fixed(prefix + field + rest, prefix.len() as int, field.len() as int) == Some(
            (field, (prefix.len() + field.len()) as int),
        ),
{
    lemma_take_field(prefix, field, rest);
}

/// A byte string reads back from its encoding.
pub proof fn lemma_parse_bytes(prefix: Seq<u8>, bytes: Seq<u8>, rest: Seq<u8>)
    requires
        bytes.len() <= u64::MAX,
    ensures
        parse_bytes(prefix + bytes_encoding(bytes) + rest, prefix.len() as int) == Some(
            (bytes, (prefix.len() + 8 + bytes.len()) as int),
        ),
{
    lemma_auto_spec_u64_to_from_le_bytes();
    let len = spec_u64_to_le_bytes(bytes.len() as u64);
    let all = prefix + bytes_encoding(bytes) + rest;
    assert(all =~= prefix + len + (bytes + rest));
    lemma_parse_u64(prefix, bytes.len() as u64, bytes + rest);
    assert(all =~= (prefix + len) + bytes + rest);
    lemma_parse_fixed(prefix + len, bytes, rest);
}

/// Whether a transaction has the sizes of an encodable one: two keys of
/// thirty-two bytes, and byte strings whose lengths fit in 64 bits.
pub open spec fn transaction_sized(tx: TransactionView) -> bool {
    &&& tx.from.len() == 32
    &&& tx.to.len() == 32
    &&& tx.signature.len() <= u64::MAX
    &&& tx.data.len() <= u64::MAX
}

/// A transaction reads back from its canonical encoding, wherever the
/// encoding stands.
pub proof fn lemma_parse_transaction(prefix: Seq<u8>, tx: TransactionView, rest: Seq<u8>)
    requires
        transaction_sized(tx),
    ensures
        parse_transaction(prefix + transaction_encoding(tx) + rest, prefix.len() as int) == Some(
            (tx, (prefix.len() + transaction_encoding(tx).len()) as int),
        ),
        transaction_encoding(tx).len() == 96 + tx.signature.len() + tx.data.len(),
{
    lemma_auto_spec_u64_to_from_le_bytes();
    let amount = spec_u64_to_le_bytes(tx.amount);
    let nonce = spec_u64_to_le_bytes(tx.nonce);
    let signature = bytes_encoding(tx.signature);
    let payload = bytes_encoding(tx.data);
    let all = prefix + transaction_encoding(tx) + rest;
    assert(transaction_encoding(tx) =~= tx.from + tx.to + amount + nonce + signature + payload);
    let r1 = tx.to + amount + nonce + signature + payload + rest;
    assert(all =~= prefix + tx.from + r1);
    lemma_parse_fixed(prefix, tx.from, r1);
    let s1 = prefix + tx.from;
    let r2 = amount + nonce + signature + payload + rest;
    assert(all =~= s1 + tx.to + r2);
    lemma_parse_fixed(s1, tx.to, r2);
    let s2 = s1 + tx.to;
    let r3 = nonce + signature + payload + rest;
    assert(all =~= s2 + amount + r3);
    lemma_parse_u64(s2, tx.amount, r3);
    let s3 = s2 + amount;
    let r4 = signature + payload + rest;
    assert(all =~= s3 + nonce + r4);
    lemma_parse_u64(s3, tx.nonce, r4);
    let s4 = s3 + nonce;
    let r5 = payload + rest;
    assert(all =~= s4 + signature + r5);
    lemma_parse_bytes(s4, tx.signature, r5);
    let s5 = s4 + signature;
    assert(all =~= s5 + payload + rest);
    lemma_parse_bytes(s5, tx.data, rest);
}

} // verus!
