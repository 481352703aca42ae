//! Numbers as decimal text.

use vstd::prelude::*;

verus! {

/// The character of a decimal digit.
pub open spec fn digit_char(d: nat) -> char {
    ((48 + d) as u8) as char
}

/// The decimal text of a number, without leading zeros.
pub open spec fn decimal_text(n: nat) -> Seq<char>
    decreases n,
{
    if n < 10 {
        seq![digit_char(n)]
    } else {
        decimal_text(n / 10).push(digit_char(n % 10))
    }
}

/// `u64`'s `to_string`: the decimal text of `n`, without sign or leading zeros.
#[verifier::external_body]
pub(crate) fn u64_to_string(n: u64) -> (text: String)
    ensures
        text@ == decimal_text(n as nat),
{
    n.to_string()
}

/// The decimal text of `n`.
pub fn decimal_to_string(n: u64) -> (text: String)
    ensures
        text@ == decimal_text(n as nat),
{
    u64_to_string(n)
}

/// The decimal digits of a number as ASCII bytes.
pub open spec fn decimal_bytes(n: nat) -> Seq<u8>
    decreases n,
{
    if n < 10 {
        seq![(48 + n) as u8]
    } else {
        decimal_bytes(n / 10).push((48 + n % 10) as u8)
    }
}

/// The decimal numbers of the bytes of `bytes` with commas between them.
pub open spec fn json_numbers(bytes: Seq<u8>) -> Seq<u8>
    decreases bytes.len(),
{
    if bytes.len() == 0 {
        Seq::<u8>::empty()
    } else if bytes.len() == 1 {
        decimal_bytes(bytes[0] as nat)
    } else {
        json_numbers(bytes.drop_last()) + seq![44u8] + decimal_bytes(bytes.last() as nat)
    }
}

/// The compact JSON text of a byte string: an array of its bytes as
/// decimal numbers, in square brackets and without spaces.
pub open spec fn json_byte_array(bytes: Seq<u8>) -> Seq<u8> {
    seq![91u8] + json_numbers(bytes) + seq![93u8]
}

/// `serde_json::to_vec` on a byte vector: the compact JSON array of the
/// bytes as decimal numbers.
#[verifier::external_body]
pub(crate) fn json_of_bytes(bytes: &Vec<u8>) -> (text: Vec<u8>)
    ensures
        text@ == json_byte_array(bytes@),
{
    serde_json::to_vec(bytes).unwrap_or_default()
}

/// The JSON text of a string: the string in double quotes, with the
/// characters escaped that JSON asks to escape.
pub uninterp spec fn json_quoted(text: Seq<char>) -> Seq<char>;

/// `serde_json::to_string` on a string: its JSON text, a function of the
/// characters alone.
#[verifier::external_body]
pub(crate) fn json_quote(text: &str) -> (quoted: String)
    ensures
        quoted@ == json_quoted(text@),
{
    serde_json::to_string(text).unwrap_or_default()
}

} // verus!
