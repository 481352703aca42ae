//! How a node is made from the genesis of a chain: the validators of the
//! genesis stake and register, the accounts are opened, and the consensus
//! core starts at height 0 with the validators in the order of the genesis.

use vstd::prelude::*;
use vstd::string::StringExecFns;
use crate::bft::state_machine::BftStateMachine;
use crate::bft::types::{BlockHash, Height, Round, TimeoutConfig, ValidatorId};
use crate::bytes::{bytes_equal, zero_bytes32};
use crate::crypto::{
    ed25519_is_key,
    ed25519_key_valid,
    ed25519_public_from_secret,
    ed25519_public_key,
    hex_text,
    to_hex,
};
use crate::fees::eip1559::{FeeMarket, at_least};
use crate::fees::types::{FeeConfig, FeeError};
use crate::genesis::config::GenesisConfig;
use crate::genesis::types::{GenesisAccount, GenesisValidator};
use crate::keys::PublicKey;
use crate::mempool::pool::TransactionPool;
use crate::mempool::types::MempoolConfig;
use crate::node::driver::Node;
use crate::node::runtime::NodeState;
use crate::rpc::server::RpcState;
use crate::rpc::types::ValidatorResponse;
use crate::staking::pool::{StakingPool, unlock_epoch_for};
use crate::staking::tiers::LockTier;
use crate::staking::types::StakeEntry;
use crate::state::accounts::AccountState;
use crate::state::state_db::{Accounts, StateDB};
use crate::validator_set::manager::ValidatorSetManager;
use crate::validator_set::types::{ValidatorInfo, ValidatorSetConfig, ValidatorStatus};

verus! {

/// The smallest stake with which a validator of the genesis registers.
pub const GENESIS_MIN_STAKE: u64 = 1_000_000;

/// The accounts after the first `n` accounts of the genesis were opened: a
/// later account of a key replaces an earlier one.
pub open spec fn opened_accounts(accounts: Seq<GenesisAccount>, n: int) -> Accounts
    decreases n,
{
    if n <= 0 {
        Map::<Seq<u8>, AccountState>::empty()
    } else {
        opened_accounts(accounts, n - 1).insert(
            accounts[n - 1].pubkey@,
            AccountState { balance: accounts[n - 1].balance, nonce: 0 },
        )
    }
}

/// The stakes after the first `n` validators of the genesis have staked,
/// without a lock: a stake of zero, and one with which the total would not
/// fit in 64 bits, is left out.
pub open spec fn genesis_stakes(validators: Seq<GenesisValidator>, n: int) -> (Seq<StakeEntry>, nat)
    decreases n,
{
    if n <= 0 {
        (Seq::<StakeEntry>::empty(), 0nat)
    } else {
        let (stakes, total) = genesis_stakes(validators, n - 1);
        let v = validators[n - 1];
        if v.initial_stake > 0 && total + v.initial_stake <= u64::MAX {
            (
                stakes.push(
                    StakeEntry {
                        staker: v.pubkey,
                        amount: v.initial_stake,
                        lock_tier: LockTier::NoLock,
                        start_epoch: 0,
                        unlock_epoch: unlock_epoch_for(LockTier::NoLock, 0),
                    },
                ),
                total + v.initial_stake as nat,
            )
        } else {
            (stakes, total)
        }
    }
}

/// The registered validators, and how many of them are active, after the
/// first `n` validators of the genesis have registered at height 0: a key
/// that is registered and a stake below the minimum are left out; a
/// validator is active while there is room under the cap, else standby.
pub open spec fn genesis_registry(
    validators: Seq<GenesisValidator>,
    config: ValidatorSetConfig,
    n: int,
) -> (Map<Seq<u8>, ValidatorInfo>, nat)
    decreases n,
{
    if n <= 0 {
        (Map::<Seq<u8>, ValidatorInfo>::empty(), 0nat)
    } else {
        let (registry, active) = genesis_registry(validators, config, n - 1);
        let v = validators[n - 1];
        if registry.dom().contains(v.pubkey@) || v.initial_stake < config.min_stake {
            (registry, active)
        } else {
            let status = if active < config.active_set_cap {
                ValidatorStatus::Active
            } else {
                ValidatorStatus::Standby
            };
            (
                registry.insert(
                    v.pubkey@,
                    ValidatorInfo {
                        pubkey: v.pubkey,
                        stake: v.initial_stake,
                        commission_rate: v.commission_rate,
                        status,
                        performance_score: 10_000,
                        join_height: 0,
                    },
                ),
                if status == ValidatorStatus::Active {
                    active + 1
                } else {
                    active
                },
            )
        }
    }
}

/// The validators of the consensus core: those of the first `n` of the
/// genesis whose key is an Ed25519 public key, in the order of the genesis.
pub open spec fn consensus_keys(validators: Seq<GenesisValidator>, n: int) -> Seq<ValidatorId>
    decreases n,
{
    if n <= 0 {
        Seq::<ValidatorId>::empty()
    } else if ed25519_key_valid(validators[n - 1].pubkey@) {
        consensus_keys(validators, n - 1).push(ValidatorId(validators[n - 1].pubkey))
    } else {
        consensus_keys(validators, n - 1)
    }
}

/// The first position of `key` among the first `n` validators.
pub open spec fn first_position(validators: Seq<ValidatorId>, key: Seq<u8>, n: int) -> Option<int>
    decreases n,
{
    if n <= 0 {
        None
    } else {
        match first_position(validators, key, n - 1) {
            Some(i) => Some(i),
            None => if validators[n - 1].0@ == key {
                Some(n - 1)
            } else {
                None
            },
        }
    }
}

/// Whether `response` shows the validator `v` of the genesis: as active,
/// with the full performance score.
pub open spec fn shows_validator(response: ValidatorResponse, v: GenesisValidator) -> bool {
    &&& response.pubkey@ == hex_text(v.pubkey@)
    &&& response.stake == v.initial_stake
    &&& response.commission_rate == v.commission_rate
    &&& response.status@ == "Active"@
    &&& response.performance_score == 10_000
}

/// Opens the accounts of the genesis in `db`.
pub fn open_genesis_accounts(db: &mut StateDB, accounts: &Vec<GenesisAccount>)
    requires
        old(db).wf(),
        old(db)@ == Map::<Seq<u8>, AccountState>::empty(),
    ensures
        final(db).wf(),
        final(db)@ == opened_accounts(accounts@, accounts@.len() as int),
{
    let mut i: usize = 0;
    while i < accounts.len()
        invariant
            i <= accounts@.len(),
            db.wf(),
            db@ == opened_accounts(accounts@, i as int),
        decreases accounts@.len() - i,
    {
        db.set_account(accounts[i].pubkey, AccountState::new(accounts[i].balance));
        i += 1;
    }
}

/// Stakes for the validators of the genesis, without a lock. A stake that
/// the pool refuses is left out.
pub fn stake_genesis_validators(pool: &mut StakingPool, validators: &Vec<GenesisValidator>)
    requires
        old(pool).wf(),
        old(pool).stakes().len() == 0,
        old(pool).state().total_staked == 0,
        old(pool).state().current_epoch == 0,
    ensures
        final(pool).wf(),
        final(pool).stakes() == genesis_stakes(validators@, validators@.len() as int).0,
        final(pool).state().total_staked == genesis_stakes(validators@, validators@.len() as int).1,
        final(pool).delegations() == old(pool).delegations(),
        final(pool).state().current_epoch == 0,
{
    let mut i: usize = 0;
    proof {
        assert(pool.stakes() =~= genesis_stakes(validators@, 0).0);
    }
    while i < validators.len()
        invariant
            i <= validators@.len(),
            pool.wf(),
            pool.stakes() == genesis_stakes(validators@, i as int).0,
            pool.state().total_staked == genesis_stakes(validators@, i as int).1,
            pool.delegations() == old(pool).delegations(),
            pool.state().current_epoch == 0,
        decreases validators@.len() - i,
    {
        let _ = pool.stake(validators[i].pubkey, validators[i].initial_stake, LockTier::NoLock);
        i += 1;
    }
}

/// Registers the validators of the genesis at height 0. One that the
/// manager refuses is left out.
pub fn register_genesis_validators(
    manager: &mut ValidatorSetManager,
    validators: &Vec<GenesisValidator>,
)
    requires
        old(manager).wf(),
        old(manager).entries().len() == 0,
    ensures
        final(manager).wf(),
        final(manager).state().config == old(manager).state().config,
        final(manager).state().current_epoch == old(manager).state().current_epoch,
        final(manager)@ == genesis_registry(
            validators@,
            old(manager).state().config,
            validators@.len() as int,
        ).0,
        final(manager).active() == genesis_registry(
            validators@,
            old(manager).state().config,
            validators@.len() as int,
        ).1,
{
    let ghost config = manager.state().config;
    let mut i: usize = 0;
    proof {
        assert(manager@ =~= Map::<Seq<u8>, ValidatorInfo>::empty());
    }
    while i < validators.len()
        invariant
            i <= validators@.len(),
            manager.wf(),
            manager.state().config == config,
            config == old(manager).state().config,
            manager.state().current_epoch == old(manager).state().current_epoch,
            manager@ == genesis_registry(validators@, config, i as int).0,
            manager.active() == genesis_registry(validators@, config, i as int).1,
        decreases validators@.len() - i,
    {
        let _ = manager.register_validator(
            validators[i].pubkey,
            validators[i].initial_stake,
            validators[i].commission_rate,
            0,
        );
        i += 1;
    }
}

/// What the RPC interface shows of the validators of the genesis.
pub fn genesis_validator_responses(validators: &Vec<GenesisValidator>) -> (shown: Vec<
    ValidatorResponse,
>)
    ensures
        shown@.len() == validators@.len(),
        forall|i: int|
            0 <= i < validators@.len() ==> shows_validator(#[trigger] shown@[i], validators@[i]),
{
    let mut shown: Vec<ValidatorResponse> = Vec::new();
    let mut i: usize = 0;
    while i < validators.len()
        invariant
            i <= validators@.len(),
            shown@.len() == i,
            forall|k: int| 0 <= k < i ==> shows_validator(#[trigger] shown@[k], validators@[k]),
        decreases validators@.len() - i,
    {
        shown.push(
            ValidatorResponse {
                pubkey: to_hex(validators[i].pubkey.as_slice()),
                stake: validators[i].initial_stake,
                commission_rate: validators[i].commission_rate,
                status: String::from_str("Active"),
                performance_score: 10_000,
            },
        );
        i += 1;
    }
    shown
}

/// The validators of the consensus core: those of the genesis whose key is
/// an Ed25519 public key.
pub fn consensus_validators(validators: &Vec<GenesisValidator>) -> (keys: Vec<ValidatorId>)
    ensures
        keys@ == consensus_keys(validators@, validators@.len() as int),
{
    let mut keys: Vec<ValidatorId> = Vec::new();
    let mut i: usize = 0;
    while i < validators.len()
        invariant
            i <= validators@.len(),
            keys@ == consensus_keys(validators@, i as int),
        decreases validators@.len() - i,
    {
        if ed25519_is_key(&validators[i].pubkey) {
            keys.push(ValidatorId(validators[i].pubkey));
        }
        i += 1;
    }
    keys
}

/// The first position of `key` among the validators.
pub fn validator_position(validators: &Vec<ValidatorId>, key: &PublicKey) -> (position: Option<
    usize,
>)
    ensures
        match position {
            Some(i) => first_position(validators@, key@, validators@.len() as int) == Some(
                i as int,
            ),
            None => first_position(validators@, key@, validators@.len() as int) is None,
        },
{
    let mut i: usize = 0;
    while i < validators.len()
        invariant
            i <= validators@.len(),
            first_position(validators@, key@, i as int) is None,
        decreases validators@.len() - i,
    {
        if bytes_equal(validators[i].0.as_slice(), key.as_slice()) {
            proof {
                lemma_first_position_stays(validators@, key@, i as int + 1, validators@.len() as int);
            }
            return Some(i);
        }
        i += 1;
    }
    None
}

/// A position that was found stays the first one.
pub proof fn lemma_first_position_stays(validators: Seq<ValidatorId>, key: Seq<u8>, n: int, m: int)
    requires
        0 <= n <= m,
        first_position(validators, key, n) is Some,
    ensures
        first_position(validators, key, m) == first_position(validators, key, n),
    decreases m - n,
{
    if n < m {
        lemma_first_position_stays(validators, key, n, m - 1);
    }
}

impl Node {
    /// The node at the start of the chain of `genesis`. The validators of
    /// the genesis stake and register; the accounts are those of
    /// `restored`, or without it those of the genesis; the fee market has
    /// the default rules and starts at the floor of the chain; the
    /// consensus core is at height 0 with the validators of the genesis,
    /// and the node takes part in it where the public key of its signing
    /// key is among them.
    pub fn from_genesis(
        genesis: &GenesisConfig,
        signing_key: Option<[u8; 32]>,
        restored: Option<StateDB>,
    ) -> (r: Result<Node, FeeError>)
        requires
            restored matches Some(db) ==> db.wf(),
        ensures
            r matches Ok(node) && {
                &&& node.wf()
                &&& node.signing_key == signing_key
                &&& node.bft.height == Height(0)
                &&& node.bft.round == Round(0)
                &&& node.bft.validators@ == consensus_keys(
                    genesis.validators@,
                    genesis.validators@.len() as int,
                )
                &&& node.bft.timeout_config == (TimeoutConfig {
                    propose_ms: 3000,
                    prevote_ms: 1000,
                    precommit_ms: 1000,
                    increment_ms: 500,
                })
                &&& match signing_key {
                    Some(key) => match node.bft.validator_index {
                        Some(index) => first_position(
                            node.bft.validators@,
                            ed25519_public_key(key@),
                            node.bft.validators@.len() as int,
                        ) == Some(index as int),
                        None => first_position(
                            node.bft.validators@,
                            ed25519_public_key(key@),
                            node.bft.validators@.len() as int,
                        ) is None,
                    },
                    None => node.bft.validator_index is None,
                }
                &&& node.state.rpc.state_db@ == (match restored {
                    Some(db) => db@,
                    None => opened_accounts(genesis.accounts@, genesis.accounts@.len() as int),
                })
                &&& node.state.rpc.current_height == 0
                &&& node.state.rpc.validator_count == node.bft.validators@.len()
                &&& node.state.rpc.base_fee == node.state.fee_market.base_fee()
                &&& node.state.rpc.block_store@.len() == 0
                &&& node.state.rpc.mempool.entries().len() == 0
                &&& node.state.rpc.genesis_validators@.len() == genesis.validators@.len()
                &&& forall|i: int|
                    0 <= i < genesis.validators@.len() ==> shows_validator(
                        #[trigger] node.state.rpc.genesis_validators@[i],
                        genesis.validators@[i],
                    )
                &&& node.state.fee_market.base_fee() == at_least(
                    genesis.chain_params.base_fee_floor,
                    1,
                )
                &&& node.state.last_block_hash.0@ == zero_bytes32()
                &&& node.state.epoch_length == genesis.chain_params.epoch_length
                &&& node.state.staking_pool.stakes() == genesis_stakes(
                    genesis.validators@,
                    genesis.validators@.len() as int,
                ).0
                &&& node.state.staking_pool.delegations().len() == 0
                &&& node.state.validator_set.state().config == (ValidatorSetConfig {
                    active_set_cap: genesis.chain_params.max_validators,
                    epoch_length: genesis.chain_params.epoch_length,
                    min_stake: GENESIS_MIN_STAKE,
                })
                &&& node.state.validator_set@ == genesis_registry(
                    genesis.validators@,
                    node.state.validator_set.state().config,
                    genesis.validators@.len() as int,
                ).0
                &&& node.state.validator_set.state().current_epoch == 0
            },
    {
        let mut staking_pool = StakingPool::new();
        let fee_market = match FeeMarket::new(
            FeeConfig::default(),
            genesis.chain_params.base_fee_floor,
        ) {
            Ok(market) => market,
            Err(error) => {
                return Err(error);
            },
        };
        let mut validator_set = ValidatorSetManager::with_config(
            ValidatorSetConfig {
                active_set_cap: genesis.chain_params.max_validators,
                epoch_length: genesis.chain_params.epoch_length,
                min_stake: GENESIS_MIN_STAKE,
            },
        );
        stake_genesis_validators(&mut staking_pool, &genesis.validators);
        register_genesis_validators(&mut validator_set, &genesis.validators);
        let shown = genesis_validator_responses(&genesis.validators);
        let state_db = match restored {
            Some(db) => db,
            None => {
                let mut db = StateDB::new();
                open_genesis_accounts(&mut db, &genesis.accounts);
                db
            },
        };
        let mut rpc = RpcState::new(
            TransactionPool::new(MempoolConfig::default()),
            state_db,
            shown,
        );
        let validators = consensus_validators(&genesis.validators);
        let validator_index = match signing_key {
            Some(key) => {
                let public = ed25519_public_from_secret(&key);
                validator_position(&validators, &public)
            },
            None => None,
        };
        rpc.validator_count = validators.len();
        rpc.base_fee = fee_market.current_base_fee();
        let last_block_hash = BlockHash([0u8; 32]);
        proof {
            assert(last_block_hash.0@ =~= zero_bytes32());
        }
        let bft = BftStateMachine::new(
            Height(0),
            validators,
            validator_index,
            TimeoutConfig::default(),
        );
        Ok(
            Node {
                bft,
                state: NodeState {
                    rpc,
                    fee_market,
                    last_block_hash,
                    staking_pool,
                    validator_set,
                    epoch_length: genesis.chain_params.epoch_length,
                },
                signing_key,
            },
        )
    }
}

} // verus!
