//! Hashing, signatures and hex text: the calls into `sha2`, `ed25519-dalek`
//! and `hex`, each behind a contract that is taken on trust.

use vstd::prelude::*;
use sha2::Digest;
use ed25519_dalek::Signer;
use ed25519_dalek::Verifier;

verus! {

/// A 64-byte Ed25519 signature.
pub type Signature = [u8; 64];

/// The SHA-256 digest of a byte string.
pub uninterp spec fn sha256_digest(data: Seq<u8>) -> Seq<u8>;

/// The Ed25519 public key that belongs to a 32-byte secret key.
pub uninterp spec fn ed25519_public_key(secret: Seq<u8>) -> Seq<u8>;

/// The Ed25519 signature of `message` under a 32-byte secret key.
pub uninterp spec fn ed25519_signature(secret: Seq<u8>, message: Seq<u8>) -> Seq<u8>;

/// Whether `signature` is accepted for `message` under the public key `public`.
pub uninterp spec fn ed25519_verifies(public: Seq<u8>, message: Seq<u8>, signature: Seq<u8>) -> bool;

/// Whether `signature` is accepted for `message` under `public` by the strict
/// check, which also refuses weak keys and non-canonical signatures.
pub uninterp spec fn ed25519_verifies_strict(
    public: Seq<u8>,
    message: Seq<u8>,
    signature: Seq<u8>,
) -> bool;

/// Whether thirty-two bytes are an Ed25519 public key: the encoding of a
/// point of the curve.
pub uninterp spec fn ed25519_key_valid(public: Seq<u8>) -> bool;

/// `sha2::Sha256::digest`: the result is the SHA-256 digest of `data`, a
/// function of the bytes alone.
#[verifier::external_body]
pub(crate) fn sha256(data: &[u8]) -> (digest: [u8; 32])
    ensures
        digest@ == sha256_digest(data@),
{
    sha2::Sha256::digest(data).into()
}

/// `ed25519_dalek::SigningKey::verifying_key`: the public key of the secret
/// key, a function of the secret bytes alone.
#[verifier::external_body]
pub(crate) fn ed25519_public_from_secret(secret: &[u8; 32]) -> (public: [u8; 32])
    ensures
        public@ == ed25519_public_key(secret@),
{
    ed25519_dalek::SigningKey::from_bytes(secret).verifying_key().to_bytes()
}

/// `ed25519_dalek::SigningKey::sign`: signing is deterministic, and a
/// signature made with a secret key is accepted under that key's public key.
#[verifier::external_body]
pub(crate) fn ed25519_sign(secret: &[u8; 32], message: &[u8]) -> (signature: Signature)
    ensures
        signature@ == ed25519_signature(secret@, message@),
        ed25519_verifies(ed25519_public_key(secret@), message@, signature@),
{
    ed25519_dalek::SigningKey::from_bytes(secret).sign(message).to_bytes()
}

/// `ed25519_dalek::VerifyingKey::from_bytes`: whether the bytes are accepted
/// as a public key, which depends on the bytes alone.
#[verifier::external_body]
pub(crate) fn ed25519_is_key(public: &[u8; 32]) -> (ok: bool)
    ensures
        ok == ed25519_key_valid(public@),
{
    ed25519_dalek::VerifyingKey::from_bytes(public).is_ok()
}

/// `ed25519_dalek::VerifyingKey::verify`: whether the signature is accepted.
/// Bytes that are no public key are accepted for nothing.
#[verifier::external_body]
pub(crate) fn ed25519_verify(public: &[u8; 32], message: &[u8], signature: &Signature) -> (ok:
    bool)
    ensures
        ok == ed25519_verifies(public@, message@, signature@),
{
    match ed25519_dalek::VerifyingKey::from_bytes(public) {
        Ok(key) => key.verify(message, &ed25519_dalek::Signature::from_bytes(signature)).is_ok(),
        Err(_) => false,
    }
}

/// `ed25519_dalek::VerifyingKey::verify_strict`: whether the signature is
/// accepted by the strict check.
#[verifier::external_body]
pub(crate) fn ed25519_verify_strict(
    public: &[u8; 32],
    message: &[u8],
    signature: &Signature,
) -> (ok: bool)
    ensures
        ok == ed25519_verifies_strict(public@, message@, signature@),
{
    match ed25519_dalek::VerifyingKey::from_bytes(public) {
        Ok(key) => key.verify_strict(
            message,
            &ed25519_dalek::Signature::from_bytes(signature),
        ).is_ok(),
        Err(_) => false,
    }
}

/// The lower-case hex digit for a value below 16.
pub open spec fn hex_digit(n: int) -> char {
    if n < 10 {
        ((48 + n) as u8) as char
    } else {
        ((87 + n) as u8) as char
    }
}

/// The lower-case hex text of a byte string: two digits for each byte, the
/// high half first.
pub open spec fn hex_text(bytes: Seq<u8>) -> Seq<char> {
    Seq::new(
        2 * bytes.len(),
        |i: int|
            if i % 2 == 0 {
                hex_digit(bytes[i / 2] as int / 16)
            } else {
                hex_digit(bytes[i / 2] as int % 16)
            },
    )
}

/// `hex::encode`: the lower-case hex text of `bytes`.
#[verifier::external_body]
pub(crate) fn hex_encode(bytes: &[u8]) -> (text: String)
    ensures
        text@ == hex_text(bytes@),
{
    hex::encode(bytes)
}

/// The value of a hex digit, in either case.
pub open spec fn hex_value(c: char) -> Option<u8> {
    if '0' <= c && c <= '9' {
        Some((c as u8 - 48) as u8)
    } else if 'a' <= c && c <= 'f' {
        Some((c as u8 - 87) as u8)
    } else if 'A' <= c && c <= 'F' {
        Some((c as u8 - 55) as u8)
    } else {
        None
    }
}

/// The bytes that a hex text stands for: one byte for each two digits, the
/// high half first. There are none for a text of odd length or with a
/// character that is no hex digit.
pub open spec fn hex_bytes(text: Seq<char>) -> Option<Seq<u8>>
    decreases text.len(),
{
    if text.len() == 0 {
        Some(Seq::<u8>::empty())
    } else if text.len() == 1 {
        None
    } else {
        match (hex_value(text[0]), hex_value(text[1]), hex_bytes(text.skip(2))) {
            (Some(high), Some(low), Some(rest)) => Some(seq![(high * 16 + low) as u8] + rest),
            _ => None,
        }
    }
}

/// What `hex::decode` says of a text that is no hex text.
pub uninterp spec fn hex_fault_text(text: Seq<char>) -> Seq<char>;

/// `hex::decode`: the bytes that the text stands for. A text of odd length
/// or with a character that is no hex digit gives an error, which is
/// returned as its text.
#[verifier::external_body]
pub(crate) fn hex_decode(text: &str) -> (bytes: Result<Vec<u8>, String>)
    ensures
        match bytes {
            Ok(b) => hex_bytes(text@) == Some(b@),
            Err(fault) => hex_bytes(text@) is None && fault@ == hex_fault_text(text@),
        },
{
    match hex::decode(text) {
        Ok(bytes) => Ok(bytes),
        Err(error) => Err(error.to_string()),
    }
}

/// The lower-case hex text of `bytes`.
pub fn to_hex(bytes: &[u8]) -> (text: String)
    ensures
        text@ == hex_text(bytes@),
{
    hex_encode(bytes)
}

/// The bytes that the hex text `text` stands for.
pub fn from_hex(text: &str) -> (bytes: Option<Vec<u8>>)
    ensures
        match bytes {
            Some(b) => hex_bytes(text@) == Some(b@),
            None => hex_bytes(text@) is None,
        },
{
    match hex_decode(text) {
        Ok(bytes) => Some(bytes),
        Err(_) => None,
    }
}

/// The bytes that the hex text `text` stands for, or what is wrong with
/// the text.
pub fn from_hex_or_fault(text: &str) -> (bytes: Result<Vec<u8>, String>)
    ensures
        match bytes {
            Ok(b) => hex_bytes(text@) == Some(b@),
            Err(fault) => hex_bytes(text@) is None && fault@ == hex_fault_text(text@),
        },
{
    hex_decode(text)
}

/// A hex digit has the value that it was made from.
pub proof fn lemma_hex_digit_value(n: int)
    requires
        0 <= n < 16,
    ensures
        hex_value(hex_digit(n)) == Some(n as u8),
{
}

/// The hex text of a byte string stands for the byte string.
pub proof fn lemma_hex_roundtrip(bytes: Seq<u8>)
    ensures
        hex_bytes(hex_text(bytes)) == Some(bytes),
    decreases bytes.len(),
{
    let text = hex_text(bytes);
    if bytes.len() == 0 {
        assert(hex_bytes(text) =~= Some(bytes));
    } else {
        let rest = bytes.drop_first();
        lemma_hex_roundtrip(rest);
        assert(text.skip(2) =~= hex_text(rest)) by {
            assert forall|i: int| 0 <= i < 2 * rest.len() implies text.skip(2)[i] == hex_text(
                rest,
            )[i] by {
                assert((i + 2) / 2 == i / 2 + 1);
                assert((i + 2) % 2 == i % 2);
                assert(rest[i / 2] == bytes[i / 2 + 1]);
            }
        }
        let high = bytes[0] as int / 16;
        let low = bytes[0] as int % 16;
        lemma_hex_digit_value(high);
        lemma_hex_digit_value(low);
        assert(text[0] == hex_digit(high));
        assert(text[1] == hex_digit(low));
        assert(seq![bytes[0]] + rest =~= bytes);
    }
}

} // verus!
