//! Building a genesis configuration step by step.

use vstd::prelude::*;
use vstd::string::StringExecFns;
use crate::genesis::config::{GenesisConfig, genesis_digest, genesis_fault, params_fault};
use crate::genesis::types::{ChainParams, GenesisAccount, GenesisError, GenesisValidator};

verus! {

/// A genesis configuration in the making.
#[derive(Debug, Clone)]
pub struct GenesisBuilder {
    chain_id: String,
    genesis_time: String,
    chain_params: ChainParams,
    validators: Vec<GenesisValidator>,
    accounts: Vec<GenesisAccount>,
}

impl GenesisBuilder {
    /// The configuration that `build` checks and completes: what was given
    /// so far, with a hash that is yet to be computed.
    pub closed spec fn draft(self) -> GenesisConfig {
        GenesisConfig {
            chain_id: self.chain_id,
            genesis_time: self.genesis_time,
            chain_params: self.chain_params,
            validators: self.validators,
            accounts: self.accounts,
            genesis_hash: arbitrary(),
        }
    }

    /// Starts a configuration for the chain `chain_id` that starts at
    /// `genesis_time`, with the default parameters and neither validators
    /// nor accounts.
    pub fn new(chain_id: &str, genesis_time: &str) -> (builder: Self)
        ensures
            builder.draft().chain_id@ == chain_id@,
            builder.draft().genesis_time@ == genesis_time@,
            builder.draft().chain_params.chain_id@ == chain_id@,
            builder.draft().chain_params.epoch_length == 100,
            builder.draft().chain_params.fee_split_valid(),
            params_fault(builder.draft().chain_params) is None,
            builder.draft().validators@.len() == 0,
            builder.draft().accounts@.len() == 0,
    {
        let mut chain_params = ChainParams::default();
        chain_params.chain_id = String::from_str(chain_id);
        GenesisBuilder {
            chain_id: String::from_str(chain_id),
            genesis_time: String::from_str(genesis_time),
            chain_params,
            validators: Vec::new(),
            accounts: Vec::new(),
        }
    }

    /// Sets the time at which the chain starts.
    pub fn with_genesis_time(self, time: &str) -> (builder: Self)
        ensures
            builder.draft().genesis_time@ == time@,
            builder.draft().chain_id == self.draft().chain_id,
            builder.draft().chain_params == self.draft().chain_params,
            builder.draft().validators == self.draft().validators,
            builder.draft().accounts == self.draft().accounts,
    {
        let mut builder = self;
        builder.genesis_time = String::from_str(time);
        builder
    }

    /// Adds a validator.
    pub fn with_validator(self, pubkey: [u8; 32], stake: u64, commission_rate: u16) -> (builder:
        Self)
        ensures
            builder.draft().validators@ == self.draft().validators@.push(
                GenesisValidator { pubkey, initial_stake: stake, commission_rate },
            ),
            builder.draft().chain_id == self.draft().chain_id,
            builder.draft().genesis_time == self.draft().genesis_time,
            builder.draft().chain_params == self.draft().chain_params,
            builder.draft().accounts == self.draft().accounts,
    {
        let mut builder = self;
        builder.validators.push(GenesisValidator { pubkey, initial_stake: stake, commission_rate });
        builder
    }

    /// Adds an account with a balance.
    pub fn with_account(self, pubkey: [u8; 32], balance: u64) -> (builder: Self)
        ensures
            builder.draft().accounts@ == self.draft().accounts@.push(
                GenesisAccount { pubkey, balance },
            ),
            builder.draft().chain_id == self.draft().chain_id,
            builder.draft().genesis_time == self.draft().genesis_time,
            builder.draft().chain_params == self.draft().chain_params,
            builder.draft().validators == self.draft().validators,
    {
        let mut builder = self;
        builder.accounts.push(GenesisAccount { pubkey, balance });
        builder
    }

    /// Sets the chain parameters.
    pub fn with_params(self, params: ChainParams) -> (builder: Self)
        ensures
            builder.draft().chain_params == params,
            builder.draft().chain_id == self.draft().chain_id,
            builder.draft().genesis_time == self.draft().genesis_time,
            builder.draft().validators == self.draft().validators,
            builder.draft().accounts == self.draft().accounts,
    {
        let mut builder = self;
        builder.chain_params = params;
        builder
    }

    /// Checks the configuration and completes it with its hash.
    pub fn build(self) -> (r: Result<GenesisConfig, GenesisError>)
        ensures
            match genesis_fault(self.draft()) {
                Some(error) => r == Err::<GenesisConfig, GenesisError>(error),
                None => r matches Ok(config) && config.chain_id == self.draft().chain_id
                    && config.genesis_time == self.draft().genesis_time && config.chain_params
                    == self.draft().chain_params && config.validators == self.draft().validators
                    && config.accounts == self.draft().accounts && config.genesis_hash@
                    == genesis_digest(config),
            },
    {
        let mut config = GenesisConfig {
            chain_id: self.chain_id,
            genesis_time: self.genesis_time,
            chain_params: self.chain_params,
            validators: self.validators,
            accounts: self.accounts,
            genesis_hash: [0u8; 32],
        };
        proof {
            assert(genesis_fault(config) == genesis_fault(self.draft()));
        }
        match config.validate() {
            Err(error) => {
                return Err(error);
            },
            Ok(_) => {},
        }
        let hash = config.compute_genesis_hash();
        let ghost before = config;
        config.genesis_hash = hash;
        proof {
            assert(crate::genesis::config::genesis_json(config)
                == crate::genesis::config::genesis_json(before));
        }
        Ok(config)
    }
}

} // verus!
