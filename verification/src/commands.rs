//! What the commands of the command line compute: a first genesis for a
//! chain, a genesis with one more validator, and the lock tier that a name
//! stands for.

use vstd::prelude::*;
use vstd::string::{StringExecFns, StringSliceAdditionalSpecFns};
use crate::bytes::{bytes_equal, read_array32};
use crate::crypto::{
    ed25519_public_from_secret,
    ed25519_public_key,
    from_hex_or_fault,
    hex_bytes,
    hex_fault_text,
    hex_text,
    to_hex,
};
use crate::genesis::builder::GenesisBuilder;
use crate::genesis::config::{
    GenesisConfig,
    first_validator_fault,
    genesis_digest,
    genesis_fault,
    numbered_key,
    validator_fault,
};
use crate::genesis::types::{GenesisError, GenesisValidator};
use crate::staking::tiers::LockTier;
use crate::text::{decimal_text, decimal_to_string};

verus! {

/// Why a validator could not be added to a genesis.
#[derive(Debug, Clone, PartialEq, Eq)]
pub enum AddValidatorError {
    /// The key is no hex text: what is wrong with it.
    InvalidHex(String),
    /// The key has this many bytes, and not thirty-two.
    WrongLength(usize),
    /// The genesis with the validator is refused.
    Invalid(GenesisError),
}

/// The text of a string in lower case.
pub uninterp spec fn lowercase_text(text: Seq<char>) -> Seq<char>;

/// `str::to_lowercase`: the text in lower case, which depends on the text
/// alone.
#[verifier::external_body]
fn to_lowercase(text: &str) -> (lower: String)
    ensures
        lower@ == lowercase_text(text@),
{
    text.to_lowercase()
}

/// The lock tier that a name in lower case stands for.
pub open spec fn tier_named(lower: Seq<u8>) -> Option<LockTier> {
    if lower == "nolock".spec_bytes() || lower == "no_lock".spec_bytes() || lower
        == "none".spec_bytes() {
        Some(LockTier::NoLock)
    } else if lower == "threemonth".spec_bytes() || lower == "three_month".spec_bytes() || lower
        == "3month".spec_bytes() {
        Some(LockTier::ThreeMonth)
    } else if lower == "sixmonth".spec_bytes() || lower == "six_month".spec_bytes() || lower
        == "6month".spec_bytes() {
        Some(LockTier::SixMonth)
    } else if lower == "oneyear".spec_bytes() || lower == "one_year".spec_bytes() || lower
        == "1year".spec_bytes() {
        Some(LockTier::OneYear)
    } else if lower == "permanent".spec_bytes() || lower == "perm".spec_bytes() {
        Some(LockTier::Permanent)
    } else {
        None
    }
}

fn is_text(bytes: &[u8], text: &str) -> (r: bool)
    ensures
        r == (bytes@ == text.spec_bytes()),
{
    bytes_equal(bytes, text.as_bytes())
}

/// The lock tier that a name in lower case stands for.
pub fn tier_of_lowercase(lower: &str) -> (tier: Option<LockTier>)
    ensures
        tier == tier_named(lower.spec_bytes()),
{
    let name = lower.as_bytes();
    if is_text(name, "nolock") || is_text(name, "no_lock") || is_text(name, "none") {
        Some(LockTier::NoLock)
    } else if is_text(name, "threemonth") || is_text(name, "three_month") || is_text(
        name,
        "3month",
    ) {
        Some(LockTier::ThreeMonth)
    } else if is_text(name, "sixmonth") || is_text(name, "six_month") || is_text(name, "6month") {
        Some(LockTier::SixMonth)
    } else if is_text(name, "oneyear") || is_text(name, "one_year") || is_text(name, "1year") {
        Some(LockTier::OneYear)
    } else if is_text(name, "permanent") || is_text(name, "perm") {
        Some(LockTier::Permanent)
    } else {
        None
    }
}

/// The lock tier that a name stands for, whatever the case of its letters.
pub fn parse_tier(name: &str) -> (tier: Option<LockTier>)
    ensures
        tier == tier_named(vstd::utf8::encode_utf8(lowercase_text(name@))),
{
    let lower = to_lowercase(name);
    tier_of_lowercase(lower.as_str())
}

/// How long a tier locks a stake, in words.
pub open spec fn lock_duration_words(tier: LockTier) -> Seq<char> {
    match tier.spec_lock_duration_epochs() {
        Some(epochs) => if epochs == 0 {
            "None (instant unlock)"@
        } else {
            decimal_text(epochs as nat) + " epochs (~"@ + decimal_text(epochs as nat) + " days)"@
        },
        None => "Permanent (never unlocks)"@,
    }
}

/// How long a tier locks a stake, in words.
pub fn lock_duration_text(tier: &LockTier) -> (text: String)
    ensures
        text@ == lock_duration_words(*tier),
{
    match tier.lock_duration_epochs() {
        Some(epochs) => {
            if epochs == 0 {
                String::from_str("None (instant unlock)")
            } else {
                let mut text = decimal_to_string(epochs);
                text.append(" epochs (~");
                text.append(decimal_to_string(epochs).as_str());
                text.append(" days)");
                text
            }
        },
        None => String::from_str("Permanent (never unlocks)"),
    }
}

/// The first genesis of the chain `chain_id`, which starts at
/// `genesis_time`: the four validators and the four accounts of the test
/// network, with the default parameters.
pub fn init_genesis(chain_id: &str, genesis_time: String) -> (r: Result<
    GenesisConfig,
    GenesisError,
>)
    ensures
        r matches Ok(config) && {
            &&& config.chain_id@ == chain_id@
            &&& config.genesis_time@ == genesis_time@
            &&& config.chain_params.chain_id@ == chain_id@
            &&& config.validators@.len() == 4
            &&& config.accounts@.len() == 4
            &&& forall|i: int|
                0 <= i < 4 ==> (#[trigger] config.validators@[i]).initial_stake == 10_000_000
                    && config.validators@[i].commission_rate == 500 && config.validators@[i].pubkey@
                    == numbered_key((i + 1) as u8)
            &&& forall|i: int|
                0 <= i < 4 ==> (#[trigger] config.accounts@[i]).balance == 100_000_000
                    && config.accounts@[i].pubkey@ == numbered_key((i + 1) as u8)
            &&& genesis_fault(config) is None
            &&& config.genesis_hash@ == genesis_digest(config)
        },
{
    let testnet = GenesisConfig::default_testnet(genesis_time);
    let builder = GenesisBuilder::new(chain_id, testnet.genesis_time.as_str()).with_validator(
        testnet.validators[0].pubkey,
        10_000_000,
        500,
    ).with_validator(testnet.validators[1].pubkey, 10_000_000, 500).with_validator(
        testnet.validators[2].pubkey,
        10_000_000,
        500,
    ).with_validator(testnet.validators[3].pubkey, 10_000_000, 500).with_account(
        testnet.accounts[0].pubkey,
        100_000_000,
    ).with_account(testnet.accounts[1].pubkey, 100_000_000).with_account(
        testnet.accounts[2].pubkey,
        100_000_000,
    ).with_account(testnet.accounts[3].pubkey, 100_000_000);
    proof {
        let validators = builder.draft().validators@;
        assert(validators.len() == 4);
        assert forall|i: int| 0 <= i < 4 implies validator_fault(validators, i) is None by {
            assert(validators[i].pubkey@[0] == (i + 1) as u8);
            assert forall|j: int| 0 <= j < i implies (#[trigger] validators[j]).pubkey@
                != validators[i].pubkey@ by {
                assert(validators[j].pubkey@[0] == (j + 1) as u8);
            }
        }
        reveal_with_fuel(first_validator_fault, 6);
        assert(first_validator_fault(validators, 0) is None);
    }
    builder.build()
}

/// The genesis with one more validator.
pub open spec fn with_validator(
    before: GenesisConfig,
    after: GenesisConfig,
    key: Seq<u8>,
    stake: u64,
    commission: u16,
) -> bool {
    &&& after.chain_id == before.chain_id
    &&& after.genesis_time == before.genesis_time
    &&& after.chain_params == before.chain_params
    &&& after.accounts == before.accounts
    &&& after.validators@.len() == before.validators@.len() + 1
    &&& after.validators@.drop_last() == before.validators@
    &&& after.validators@.last().pubkey@ == key
    &&& after.validators@.last().initial_stake == stake
    &&& after.validators@.last().commission_rate == commission
    &&& after.genesis_hash@ == genesis_digest(after)
}

/// Adds a validator with the key `pubkey_hex` to a genesis and computes the
/// hash anew. A key that is no hex text of thirty-two bytes is refused, and
/// the genesis stays as it was. The genesis with the validator is checked:
/// where it is refused, the error says why.
pub fn add_validator(config: &mut GenesisConfig, pubkey_hex: &str, stake: u64, commission: u16) -> (r:
    Result<(), AddValidatorError>)
    ensures
        match hex_bytes(pubkey_hex@) {
            None => *final(config) == *old(config) && (r matches Err(
                AddValidatorError::InvalidHex(fault),
            ) && fault@ == hex_fault_text(pubkey_hex@)),
            Some(key) => if key.len() != 32 {
                *final(config) == *old(config) && r == Err::<(), AddValidatorError>(
                    AddValidatorError::WrongLength(key.len() as usize),
                )
            } else {
                &&& with_validator(*old(config), *final(config), key, stake, commission)
                &&& r == (match genesis_fault(*final(config)) {
                    Some(error) => Err::<(), AddValidatorError>(AddValidatorError::Invalid(error)),
                    None => Ok(()),
                })
            },
        },
{
    let bytes = match from_hex_or_fault(pubkey_hex) {
        Ok(bytes) => bytes,
        Err(fault) => {
            return Err(AddValidatorError::InvalidHex(fault));
        },
    };
    if bytes.len() != 32 {
        return Err(AddValidatorError::WrongLength(bytes.len()));
    }
    let pubkey = read_array32(bytes.as_slice(), 0);
    let ghost before = config.validators@;
    config.validators.push(
        GenesisValidator { pubkey, initial_stake: stake, commission_rate: commission },
    );
    config.genesis_hash = config.compute_genesis_hash();
    proof {
        assert(config.validators@.drop_last() =~= before);
        assert(pubkey@ =~= bytes@);
    }
    match config.validate() {
        Ok(()) => Ok(()),
        Err(error) => Err(AddValidatorError::Invalid(error)),
    }
}

/// A key pair as it is shown and stored.
#[derive(Debug, Clone, PartialEq, Eq)]
pub struct KeyPairText {
    /// The secret key.
    pub secret: [u8; 32],
    /// The public key, in hex.
    pub public_hex: String,
    /// The secret key, in hex: what the key file holds.
    pub secret_hex: String,
}

/// Why the text of a key file is no signing key.
#[derive(Debug, Clone, PartialEq, Eq)]
pub enum KeyFileError {
    /// The text is no hex text: what is wrong with it.
    InvalidHex(String),
    /// The text stands for another number of bytes than thirty-two.
    WrongLength,
}

/// `ed25519_dalek::SigningKey::generate` with the random source of the
/// operating system: a fresh secret key. Nothing is known of the bytes.
#[verifier::external_body]
fn ed25519_generate() -> (secret: [u8; 32]) {
    ed25519_dalek::SigningKey::generate(&mut rand::rngs::OsRng).to_bytes()
}

/// A text without the white space at its ends.
pub uninterp spec fn trimmed_text(text: Seq<char>) -> Seq<char>;

/// `str::trim`: the text without leading and trailing white space, which
/// depends on the text alone.
#[verifier::external_body]
fn trim<'a>(text: &'a str) -> (trimmed: &'a str)
    ensures
        trimmed@ == trimmed_text(text@),
{
    text.trim()
}

/// The texts of the key pair of a secret key.
pub fn describe_key(secret: [u8; 32]) -> (pair: KeyPairText)
    ensures
        pair.secret == secret,
        pair.public_hex@ == hex_text(ed25519_public_key(secret@)),
        pair.secret_hex@ == hex_text(secret@),
{
    let public = ed25519_public_from_secret(&secret);
    KeyPairText {
        secret,
        public_hex: to_hex(public.as_slice()),
        secret_hex: to_hex(secret.as_slice()),
    }
}

/// A fresh key pair.
pub fn keygen() -> (pair: KeyPairText)
    ensures
        pair.public_hex@ == hex_text(ed25519_public_key(pair.secret@)),
        pair.secret_hex@ == hex_text(pair.secret@),
{
    describe_key(ed25519_generate())
}

/// The signing key that a hex text stands for: the text must stand for
/// thirty-two bytes.
pub fn signing_key_of_hex(hex: &str) -> (r: Result<[u8; 32], KeyFileError>)
    ensures
        match hex_bytes(hex@) {
            None => r matches Err(KeyFileError::InvalidHex(fault)) && fault@ == hex_fault_text(
                hex@,
            ),
            Some(bytes) => if bytes.len() == 32 {
                r matches Ok(key) && key@ == bytes
            } else {
                r == Err::<[u8; 32], KeyFileError>(KeyFileError::WrongLength)
            },
        },
{
    let bytes = match from_hex_or_fault(hex) {
        Ok(bytes) => bytes,
        Err(fault) => {
            return Err(KeyFileError::InvalidHex(fault));
        },
    };
    if bytes.len() != 32 {
        return Err(KeyFileError::WrongLength);
    }
    let key = read_array32(bytes.as_slice(), 0);
    proof {
        assert(key@ =~= bytes@);
    }
    Ok(key)
}

/// The signing key that the contents of a key file stand for: white space
/// around the hex text is passed over.
pub fn parse_signing_key(contents: &str) -> (r: Result<[u8; 32], KeyFileError>)
    ensures
        match hex_bytes(trimmed_text(contents@)) {
            None => r matches Err(KeyFileError::InvalidHex(fault)) && fault@ == hex_fault_text(
                trimmed_text(contents@),
            ),
            Some(bytes) => if bytes.len() == 32 {
                r matches Ok(key) && key@ == bytes
            } else {
                r == Err::<[u8; 32], KeyFileError>(KeyFileError::WrongLength)
            },
        },
{
    signing_key_of_hex(trim(contents))
}

} // verus!
