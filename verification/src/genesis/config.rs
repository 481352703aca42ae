//! The genesis configuration of a chain: its validation and its hash.

use vstd::prelude::*;
use vstd::string::StringExecFns;
use vstd::utf8::encode_utf8;
use crate::crypto::{hex_encode, hex_text, sha256, sha256_digest};
use crate::genesis::types::{ChainParams, GenesisAccount, GenesisError, GenesisValidator};
use crate::keys::keys_equal;
use crate::text::{decimal_text, decimal_to_string, json_quote, json_quoted};

verus! {

/// The genesis configuration of a chain.
#[derive(Debug, Clone, PartialEq, Eq)]
pub struct GenesisConfig {
    pub chain_id: String,
    /// When the chain starts, as RFC 3339 text in UTC.
    pub genesis_time: String,
    pub chain_params: ChainParams,
    pub validators: Vec<GenesisValidator>,
    pub accounts: Vec<GenesisAccount>,
    /// The hash of the configuration without this field.
    pub genesis_hash: [u8; 32],
}

/// A number field of a JSON object that is not its first field.
pub open spec fn number_field(name: Seq<char>, value: nat) -> Seq<char> {
    ",\""@ + name + "\":"@ + decimal_text(value)
}

/// The JSON text of a validator.
pub open spec fn validator_json(v: GenesisValidator) -> Seq<char> {
    "{\"pubkey\":\""@ + hex_text(v.pubkey@) + "\""@ + number_field(
        "initial_stake"@,
        v.initial_stake as nat,
    ) + number_field("commission_rate"@, v.commission_rate as nat) + "}"@
}

/// The JSON text of an account.
pub open spec fn account_json(a: GenesisAccount) -> Seq<char> {
    "{\"pubkey\":\""@ + hex_text(a.pubkey@) + "\""@ + number_field("balance"@, a.balance as nat)
        + "}"@
}

/// The JSON texts of the first `n` validators, with commas between them.
pub open spec fn validators_json(validators: Seq<GenesisValidator>, n: int) -> Seq<char>
    decreases n,
{
    if n <= 0 {
        Seq::<char>::empty()
    } else if n == 1 {
        validator_json(validators[0])
    } else {
        validators_json(validators, n - 1) + ","@ + validator_json(validators[n - 1])
    }
}

/// The JSON texts of the first `n` accounts, with commas between them.
pub open spec fn accounts_json(accounts: Seq<GenesisAccount>, n: int) -> Seq<char>
    decreases n,
{
    if n <= 0 {
        Seq::<char>::empty()
    } else if n == 1 {
        account_json(accounts[0])
    } else {
        accounts_json(accounts, n - 1) + ","@ + account_json(accounts[n - 1])
    }
}

/// The JSON text of the chain parameters.
pub open spec fn params_json(p: ChainParams) -> Seq<char> {
    "{\"chain_id\":"@ + json_quoted(p.chain_id@) + number_field(
        "epoch_length"@,
        p.epoch_length as nat,
    ) + number_field("block_time_ms"@, p.block_time_ms as nat) + number_field(
        "max_validators"@,
        p.max_validators as nat,
    ) + number_field("base_fee_floor"@, p.base_fee_floor as nat) + number_field(
        "fee_launch_burn_bps"@,
        p.fee_launch_burn_bps as nat,
    ) + number_field("fee_launch_validator_bps"@, p.fee_launch_validator_bps as nat)
        + number_field("fee_launch_treasury_bps"@, p.fee_launch_treasury_bps as nat)
        + number_field("fee_launch_developer_bps"@, p.fee_launch_developer_bps as nat)
        + number_field("fee_maturity_burn_bps"@, p.fee_maturity_burn_bps as nat) + number_field(
        "fee_maturity_validator_bps"@,
        p.fee_maturity_validator_bps as nat,
    ) + number_field("fee_maturity_treasury_bps"@, p.fee_maturity_treasury_bps as nat)
        + number_field("fee_maturity_developer_bps"@, p.fee_maturity_developer_bps as nat)
        + number_field("fee_transition_epochs"@, p.fee_transition_epochs as nat) + number_field(
        "slash_double_sign_bps"@,
        p.slash_double_sign_bps as nat,
    ) + number_field("slash_downtime_bps"@, p.slash_downtime_bps as nat) + number_field(
        "staking_base_apy"@,
        p.staking_base_apy as nat,
    ) + "}"@
}

/// The canonical JSON text of a genesis configuration: every field but the
/// hash, in compact form.
pub open spec fn genesis_json(config: GenesisConfig) -> Seq<char> {
    "{\"chain_id\":"@ + json_quoted(config.chain_id@) + ",\"genesis_time\":"@ + json_quoted(
        config.genesis_time@,
    ) + ",\"chain_params\":"@ + params_json(config.chain_params) + ",\"validators\":["@
        + validators_json(config.validators@, config.validators@.len() as int)
        + "],\"accounts\":["@ + accounts_json(config.accounts@, config.accounts@.len() as int)
        + "]}"@
}

/// The hash of a genesis configuration: SHA-256 over its canonical JSON text.
pub open spec fn genesis_digest(config: GenesisConfig) -> Seq<u8> {
    sha256_digest(encode_utf8(genesis_json(config)))
}

/// What is wrong with the validator at `i`, if anything: its key occurred
/// before, its stake is zero, or its commission is above 10_000 basis points.
pub open spec fn validator_fault(validators: Seq<GenesisValidator>, i: int) -> Option<GenesisError> {
    if exists|j: int| 0 <= j < i && (#[trigger] validators[j]).pubkey@ == validators[i].pubkey@ {
        Some(GenesisError::DuplicateValidator(i as usize))
    } else if validators[i].initial_stake == 0 {
        Some(GenesisError::ZeroStake { index: i as usize })
    } else if validators[i].commission_rate > 10_000 {
        Some(GenesisError::InvalidCommission { index: i as usize })
    } else {
        None
    }
}

/// The first fault among the validators from `from` on.
pub open spec fn first_validator_fault(validators: Seq<GenesisValidator>, from: int) -> Option<
    GenesisError,
>
    decreases validators.len() - from,
{
    if from < 0 || from >= validators.len() {
        None
    } else {
        match validator_fault(validators, from) {
            Some(error) => Some(error),
            None => first_validator_fault(validators, from + 1),
        }
    }
}

/// A sum of basis points, at most the largest 64-bit number.
pub open spec fn capped(total: int) -> u64 {
    if total <= u64::MAX {
        total as u64
    } else {
        u64::MAX
    }
}

/// What is wrong with the chain parameters, if anything.
pub open spec fn params_fault(p: ChainParams) -> Option<GenesisError> {
    if p.epoch_length == 0 {
        Some(GenesisError::ZeroEpochLength)
    } else if p.block_time_ms == 0 {
        Some(GenesisError::ZeroBlockTime)
    } else if p.max_validators == 0 {
        Some(GenesisError::ZeroMaxValidators)
    } else if p.launch_total() != 10_000 {
        Some(GenesisError::InvalidFeeSplit(capped(p.launch_total())))
    } else if p.maturity_total() != 10_000 {
        Some(GenesisError::InvalidFeeSplit(capped(p.maturity_total())))
    } else {
        None
    }
}

/// Why a genesis configuration is refused, if it is. There must be a
/// validator; no validator key may occur twice, every stake must be above
/// zero and every commission at most 10_000 basis points; epoch length,
/// block time and the cap of the validators must be above zero; and the fee
/// split at launch and that at maturity must each sum to 10_000 basis points.
pub open spec fn genesis_fault(config: GenesisConfig) -> Option<GenesisError> {
    if config.validators@.len() == 0 {
        Some(GenesisError::NoValidators)
    } else {
        match first_validator_fault(config.validators@, 0) {
            Some(error) => Some(error),
            None => params_fault(config.chain_params),
        }
    }
}

fn append_number_field(text: &mut String, name: &str, value: u64)
    ensures
        final(text)@ == old(text)@ + number_field(name@, value as nat),
{
    text.append(",\"");
    text.append(name);
    text.append("\":");
    text.append(decimal_to_string(value).as_str());
    assert(text@ =~= old(text)@ + number_field(name@, value as nat));
}

fn append_validator(text: &mut String, v: &GenesisValidator)
    ensures
        final(text)@ == old(text)@ + validator_json(*v),
{
    text.append("{\"pubkey\":\"");
    text.append(hex_encode(v.pubkey.as_slice()).as_str());
    text.append("\"");
    append_number_field(text, "initial_stake", v.initial_stake);
    append_number_field(text, "commission_rate", v.commission_rate as u64);
    text.append("}");
    assert(text@ =~= old(text)@ + validator_json(*v));
}

fn append_account(text: &mut String, a: &GenesisAccount)
    ensures
        final(text)@ == old(text)@ + account_json(*a),
{
    text.append("{\"pubkey\":\"");
    text.append(hex_encode(a.pubkey.as_slice()).as_str());
    text.append("\"");
    append_number_field(text, "balance", a.balance);
    text.append("}");
    assert(text@ =~= old(text)@ + account_json(*a));
}

fn append_params(text: &mut String, p: &ChainParams)
    ensures
        final(text)@ == old(text)@ + params_json(*p),
{
    text.append("{\"chain_id\":");
    text.append(json_quote(p.chain_id.as_str()).as_str());
    append_number_field(text, "epoch_length", p.epoch_length);
    append_number_field(text, "block_time_ms", p.block_time_ms);
    append_number_field(text, "max_validators", p.max_validators as u64);
    append_number_field(text, "base_fee_floor", p.base_fee_floor);
    append_number_field(text, "fee_launch_burn_bps", p.fee_launch_burn_bps);
    append_number_field(text, "fee_launch_validator_bps", p.fee_launch_validator_bps);
    append_number_field(text, "fee_launch_treasury_bps", p.fee_launch_treasury_bps);
    append_number_field(text, "fee_launch_developer_bps", p.fee_launch_developer_bps);
    append_number_field(text, "fee_maturity_burn_bps", p.fee_maturity_burn_bps);
    append_number_field(text, "fee_maturity_validator_bps", p.fee_maturity_validator_bps);
    append_number_field(text, "fee_maturity_treasury_bps", p.fee_maturity_treasury_bps);
    append_number_field(text, "fee_maturity_developer_bps", p.fee_maturity_developer_bps);
    append_number_field(text, "fee_transition_epochs", p.fee_transition_epochs);
    append_number_field(text, "slash_double_sign_bps", p.slash_double_sign_bps);
    append_number_field(text, "slash_downtime_bps", p.slash_downtime_bps);
    append_number_field(text, "staking_base_apy", p.staking_base_apy);
    text.append("}");
    assert(text@ =~= old(text)@ + params_json(*p));
}

impl GenesisConfig {
    /// Checks the configuration, and says what is wrong with it.
    pub fn validate(&self) -> (r: Result<(), GenesisError>)
        ensures
            match genesis_fault(*self) {
                Some(error) => r == Err::<(), GenesisError>(error),
                None => r is Ok,
            },
    {
        if self.validators.len() == 0 {
            return Err(GenesisError::NoValidators);
        }
        let mut i: usize = 0;
        while i < self.validators.len()
            invariant
                i <= self.validators@.len(),
                first_validator_fault(self.validators@, 0) == first_validator_fault(
                    self.validators@,
                    i as int,
                ),
            decreases self.validators@.len() - i,
        {
            let v = &self.validators[i];
            let mut seen = false;
            let mut j: usize = 0;
            while j < i
                invariant
                    j <= i < self.validators@.len(),
                    *v == self.validators@[i as int],
                    seen == (exists|k: int|
                        0 <= k < j && (#[trigger] self.validators@[k]).pubkey@ == v.pubkey@),
                decreases i - j,
            {
                if keys_equal(&self.validators[j].pubkey, &v.pubkey) {
                    seen = true;
                }
                j += 1;
            }
            if seen {
                return Err(GenesisError::DuplicateValidator(i));
            }
            if v.initial_stake == 0 {
                return Err(GenesisError::ZeroStake { index: i });
            }
            if v.commission_rate > 10_000 {
                return Err(GenesisError::InvalidCommission { index: i });
            }
            i += 1;
        }
        if self.chain_params.epoch_length == 0 {
            return Err(GenesisError::ZeroEpochLength);
        }
        if self.chain_params.block_time_ms == 0 {
            return Err(GenesisError::ZeroBlockTime);
        }
        if self.chain_params.max_validators == 0 {
            return Err(GenesisError::ZeroMaxValidators);
        }
        let launch_total = self.chain_params.launch_sum();
        if launch_total != 10_000 {
            return Err(GenesisError::InvalidFeeSplit(launch_total));
        }
        let maturity_total = self.chain_params.maturity_sum();
        if maturity_total != 10_000 {
            return Err(GenesisError::InvalidFeeSplit(maturity_total));
        }
        Ok(())
    }

    /// The canonical JSON text of the configuration, without the hash.
    pub fn canonical_json(&self) -> (text: String)
        ensures
            text@ == genesis_json(*self),
    {
        let mut text = String::from_str("{\"chain_id\":");
        text.append(json_quote(self.chain_id.as_str()).as_str());
        text.append(",\"genesis_time\":");
        text.append(json_quote(self.genesis_time.as_str()).as_str());
        text.append(",\"chain_params\":");
        append_params(&mut text, &self.chain_params);
        text.append(",\"validators\":[");
        let ghost head = text@;
        let mut i: usize = 0;
        proof {
            assert(text@ =~= head + validators_json(self.validators@, 0));
        }
        while i < self.validators.len()
            invariant
                i <= self.validators@.len(),
                text@ == head + validators_json(self.validators@, i as int),
            decreases self.validators@.len() - i,
        {
            if i > 0 {
                text.append(",");
            }
            append_validator(&mut text, &self.validators[i]);
            assert(text@ =~= head + validators_json(self.validators@, i + 1));
            i += 1;
        }
        text.append("],\"accounts\":[");
        let ghost middle = text@;
        let mut k: usize = 0;
        proof {
            assert(text@ =~= middle + accounts_json(self.accounts@, 0));
        }
        while k < self.accounts.len()
            invariant
                k <= self.accounts@.len(),
                text@ == middle + accounts_json(self.accounts@, k as int),
            decreases self.accounts@.len() - k,
        {
            if k > 0 {
                text.append(",");
            }
            append_account(&mut text, &self.accounts[k]);
            assert(text@ =~= middle + accounts_json(self.accounts@, k + 1));
            k += 1;
        }
        text.append("]}");
        assert(text@ =~= genesis_json(*self));
        text
    }

    /// The hash of the configuration: SHA-256 over its canonical JSON text.
    /// It depends on every field but the hash itself.
    pub fn compute_genesis_hash(&self) -> (hash: [u8; 32])
        ensures
            hash@ == genesis_digest(*self),
    {
        let text = self.canonical_json();
        sha256(text.as_str().as_bytes())
    }

    /// A test network of four validators with a stake of ten million each,
    /// and four accounts with a hundred million each, that starts at
    /// `genesis_time`.
    pub fn default_testnet(genesis_time: String) -> (config: Self)
        ensures
            config.chain_id@ == "trv1-testnet-1"@,
            config.genesis_time == genesis_time,
            config.validators@.len() == 4,
            config.accounts@.len() == 4,
            forall|i: int|
                0 <= i < 4 ==> (#[trigger] config.validators@[i]).initial_stake == 10_000_000
                    && config.validators@[i].commission_rate == 500 && config.validators@[i].pubkey@
                    == numbered_key((i + 1) as u8),
            forall|i: int|
                0 <= i < 4 ==> (#[trigger] config.accounts@[i]).balance == 100_000_000
                    && config.accounts@[i].pubkey@ == numbered_key((i + 1) as u8),
            config.genesis_hash@ == genesis_digest(config),
    {
        let mut validators: Vec<GenesisValidator> = Vec::new();
        let mut accounts: Vec<GenesisAccount> = Vec::new();
        let mut i: u8 = 1;
        while i <= 4
            invariant
                1 <= i <= 5,
                validators@.len() == i - 1,
                accounts@.len() == i - 1,
                forall|k: int|
                    0 <= k < i - 1 ==> (#[trigger] validators@[k]).initial_stake == 10_000_000
                        && validators@[k].commission_rate == 500 && validators@[k].pubkey@
                        == numbered_key((k + 1) as u8),
                forall|k: int|
                    0 <= k < i - 1 ==> (#[trigger] accounts@[k]).balance == 100_000_000
                        && accounts@[k].pubkey@ == numbered_key((k + 1) as u8),
            decreases 5 - i,
        {
            let mut pubkey = [0u8; 32];
            pubkey[0] = i;
            assert(pubkey@ =~= numbered_key(i));
            validators.push(
                GenesisValidator { pubkey, initial_stake: 10_000_000, commission_rate: 500 },
            );
            accounts.push(GenesisAccount { pubkey, balance: 100_000_000 });
            i += 1;
        }
        let mut chain_params = ChainParams::default();
        chain_params.chain_id = String::from_str("trv1-testnet-1");
        let mut config = GenesisConfig {
            chain_id: String::from_str("trv1-testnet-1"),
            genesis_time,
            chain_params,
            validators,
            accounts,
            genesis_hash: [0u8; 32],
        };
        let hash = config.compute_genesis_hash();
        let ghost before = config;
        config.genesis_hash = hash;
        proof {
            assert(genesis_json(config) == genesis_json(before));
        }
        config
    }
}

/// The key whose first byte is `n` and whose other bytes are zero.
pub open spec fn numbered_key(n: u8) -> Seq<u8> {
    Seq::new(32, |i: int| if i == 0 { n } else { 0u8 })
}

/// The hash of a configuration does not depend on the hash that it holds.
pub proof fn law_genesis_hash_ignores_hash_field(a: GenesisConfig, b: GenesisConfig)
    requires
        a.chain_id@ == b.chain_id@,
        a.genesis_time@ == b.genesis_time@,
        a.chain_params == b.chain_params,
        a.validators@ == b.validators@,
        a.accounts@ == b.accounts@,
    ensures
        genesis_digest(a) == genesis_digest(b),
{
}

} // verus!
