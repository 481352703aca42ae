//! The state that the RPC interface reads, and what each of its methods
//! answers. Serving the methods over a connection is left to the caller.

use vstd::prelude::*;
use vstd::string::StringExecFns;
use crate::bft::block::{Transaction, TransactionView, transaction_hash};
use crate::crypto::{from_hex_or_fault, hex_bytes, hex_encode, hex_fault_text, hex_text};
use crate::mempool::pool::{Refusal, TransactionPool, compute_tx_hash, refusal};
use crate::mempool::types::MempoolConfig;
use crate::rpc::types::{
    AccountResponse,
    BlockResponse,
    FeeInfoResponse,
    HealthResponse,
    StakingInfoResponse,
    SubmitTransactionRequest,
    SubmitTransactionResponse,
    ValidatorResponse,
};
use crate::state::accounts::AccountState;
use crate::state::state_db::{StateDB, account_or_default};
use crate::text::{decimal_text, decimal_to_string};

verus! {

/// The error of a method: a code and a message.
#[derive(Debug, Clone, PartialEq, Eq)]
pub struct RpcError {
    pub code: i32,
    pub message: String,
}

/// The code of a transaction that the mempool refused.
pub const REJECTED: i32 = -32000;

/// The code of a block that is not committed yet.
pub const NOT_COMMITTED: i32 = -32001;

/// The code of a parameter that cannot be read.
pub const INVALID_PARAMS: i32 = -32602;

/// What the RPC methods read.
#[derive(Debug, Clone)]
pub struct RpcState {
    /// The height of the chain.
    pub current_height: u64,
    /// The number of active validators.
    pub validator_count: usize,
    /// The base fee of the fee market.
    pub base_fee: u64,
    pub mempool: TransactionPool,
    pub state_db: StateDB,
    /// The committed blocks by height.
    pub block_store: Vec<BlockResponse>,
    /// The validators of the genesis configuration.
    pub genesis_validators: Vec<ValidatorResponse>,
}

/// Sixty-four zeros: the hex text of thirty-two zero bytes.
pub open spec fn zero_hash_text() -> Seq<char> {
    "0000000000000000000000000000000000000000000000000000000000000000"@
}

/// The text that says that a block is not committed yet.
pub open spec fn not_committed_text(height: u64, current: u64) -> Seq<char> {
    "block at height "@ + decimal_text(height as nat) + " not yet committed (current: "@
        + decimal_text(current as nat) + ")"@
}

/// Whether a response is the placeholder for a block at `height` that is
/// not in the store.
pub open spec fn is_placeholder(block: BlockResponse, height: u64) -> bool {
    &&& block.height == height
    &&& block.timestamp == 0
    &&& block.parent_hash@ == zero_hash_text()
    &&& block.proposer@ == zero_hash_text()
    &&& block.tx_count == 0
    &&& block.block_hash@ == zero_hash_text()
}

/// The placeholder for a block at `height` that is not in the store.
pub fn placeholder_block(height: u64) -> (block: BlockResponse)
    ensures
        is_placeholder(block, height),
{
    BlockResponse {
        height,
        timestamp: 0,
        parent_hash: String::from_str(
            "0000000000000000000000000000000000000000000000000000000000000000",
        ),
        proposer: String::from_str(
            "0000000000000000000000000000000000000000000000000000000000000000",
        ),
        tx_count: 0,
        block_hash: String::from_str(
            "0000000000000000000000000000000000000000000000000000000000000000",
        ),
    }
}

/// A copy of a block response.
fn copy_block(block: &BlockResponse) -> (copy: BlockResponse)
    ensures
        copy.height == block.height,
        copy.timestamp == block.timestamp,
        copy.parent_hash@ == block.parent_hash@,
        copy.proposer@ == block.proposer@,
        copy.tx_count == block.tx_count,
        copy.block_hash@ == block.block_hash@,
{
    BlockResponse {
        height: block.height,
        timestamp: block.timestamp,
        parent_hash: block.parent_hash.clone(),
        proposer: block.proposer.clone(),
        tx_count: block.tx_count,
        block_hash: block.block_hash.clone(),
    }
}

/// Whether two block responses say the same.
pub open spec fn same_block(a: BlockResponse, b: BlockResponse) -> bool {
    &&& a.height == b.height
    &&& a.timestamp == b.timestamp
    &&& a.parent_hash@ == b.parent_hash@
    &&& a.proposer@ == b.proposer@
    &&& a.tx_count == b.tx_count
    &&& a.block_hash@ == b.block_hash@
}

/// Whether two validator responses say the same.
pub open spec fn same_validator(a: ValidatorResponse, b: ValidatorResponse) -> bool {
    &&& a.pubkey@ == b.pubkey@
    &&& a.stake == b.stake
    &&& a.commission_rate == b.commission_rate
    &&& a.status@ == b.status@
    &&& a.performance_score == b.performance_score
}

/// What reading a field of a request as thirty-two bytes of hex text gives.
pub open spec fn key_field(text: Seq<char>) -> Option<Seq<u8>> {
    match hex_bytes(text) {
        Some(bytes) => if bytes.len() == 32 {
            Some(bytes)
        } else {
            None
        },
        None => None,
    }
}

/// The text of the error for the field called `name` with the hex text
/// `text` that is to hold thirty-two bytes.
pub open spec fn key_fault_text(name: Seq<char>, text: Seq<char>) -> Seq<char> {
    match hex_bytes(text) {
        Some(_) => name + " must be 32 bytes"@,
        None => "invalid "@ + name + " hex: "@ + hex_fault_text(text),
    }
}

/// Reads a field of a request as hex text.
fn read_hex_field(name: &str, text: &str) -> (r: Result<Vec<u8>, RpcError>)
    ensures
        match r {
            Ok(bytes) => hex_bytes(text@) == Some(bytes@),
            Err(error) => hex_bytes(text@) is None && error.code == INVALID_PARAMS
                && error.message@ == "invalid "@ + name@ + " hex: "@ + hex_fault_text(text@),
        },
{
    match from_hex_or_fault(text) {
        Ok(bytes) => Ok(bytes),
        Err(fault) => {
            let mut message = String::from_str("invalid ");
            message.append(name);
            message.append(" hex: ");
            message.append(fault.as_str());
            Err(RpcError { code: INVALID_PARAMS, message })
        },
    }
}

/// Reads a field of a request as thirty-two bytes of hex text.
fn read_key_field(name: &str, text: &str) -> (r: Result<[u8; 32], RpcError>)
    ensures
        match r {
            Ok(key) => key_field(text@) == Some(key@),
            Err(error) => key_field(text@) is None && error.code == INVALID_PARAMS
                && error.message@ == key_fault_text(name@, text@),
        },
{
    let bytes = match read_hex_field(name, text) {
        Ok(bytes) => bytes,
        Err(error) => {
            return Err(error);
        },
    };
    if bytes.len() != 32 {
        let mut message = String::from_str(name);
        message.append(" must be 32 bytes");
        return Err(RpcError { code: INVALID_PARAMS, message });
    }
    let key = crate::bytes::read_array32(bytes.as_slice(), 0);
    assert(key@ =~= bytes@);
    Ok(key)
}

/// The transaction that a request asks to submit, if its fields can be read.
pub open spec fn requested_transaction(req: SubmitTransactionRequest) -> Option<TransactionView> {
    match (
        key_field(req.from@),
        key_field(req.to@),
        hex_bytes(req.signature@),
        hex_bytes(req.data@),
    ) {
        (Some(from), Some(to), Some(signature), Some(data)) => Some(
            TransactionView { from, to, amount: req.amount, nonce: req.nonce, signature, data },
        ),
        _ => None,
    }
}

/// What is wrong with the first field of a request that cannot be read.
pub open spec fn request_fault_text(req: SubmitTransactionRequest) -> Seq<char> {
    if key_field(req.from@) is None {
        key_fault_text("'from'"@, req.from@)
    } else if key_field(req.to@) is None {
        key_fault_text("'to'"@, req.to@)
    } else if hex_bytes(req.signature@) is None {
        "invalid "@ + "'signature'"@ + " hex: "@ + hex_fault_text(req.signature@)
    } else {
        "invalid "@ + "'data'"@ + " hex: "@ + hex_fault_text(req.data@)
    }
}

/// The text of the error for a transaction that the mempool refuses.
pub open spec fn rejection_text(why: Refusal) -> Seq<char> {
    "transaction rejected: "@ + (match why {
        Refusal::Malformed(reason) => "invalid transaction: "@ + reason,
        Refusal::BadSignature => "invalid signature"@,
        Refusal::Full => "mempool is full"@,
        Refusal::Duplicate => "duplicate transaction"@,
        Refusal::SenderFull => "mempool is full"@,
    })
}

/// Reads the transaction of a request. The sender and the receiver must be
/// hex text of thirty-two bytes, the signature and the data hex text.
pub fn parse_transaction_request(req: &SubmitTransactionRequest) -> (r: Result<
    Transaction,
    RpcError,
>)
    ensures
        match requested_transaction(*req) {
            Some(view) => r matches Ok(tx) && tx@ == view,
            None => r matches Err(error) && error.code == INVALID_PARAMS && error.message@
                == request_fault_text(*req),
        },
{
    let from = match read_key_field("'from'", req.from.as_str()) {
        Ok(key) => key,
        Err(error) => {
            return Err(error);
        },
    };
    let to = match read_key_field("'to'", req.to.as_str()) {
        Ok(key) => key,
        Err(error) => {
            return Err(error);
        },
    };
    let signature = match read_hex_field("'signature'", req.signature.as_str()) {
        Ok(bytes) => bytes,
        Err(error) => {
            return Err(error);
        },
    };
    let data = match read_hex_field("'data'", req.data.as_str()) {
        Ok(bytes) => bytes,
        Err(error) => {
            return Err(error);
        },
    };
    Ok(Transaction { from, to, amount: req.amount, nonce: req.nonce, signature, data })
}

impl RpcState {
    /// A state at height 0 with the base fee 1, without blocks, with the
    /// given mempool, accounts and genesis validators.
    pub fn new(
        mempool: TransactionPool,
        state_db: StateDB,
        genesis_validators: Vec<ValidatorResponse>,
    ) -> (state: Self)
        ensures
            state.current_height == 0,
            state.validator_count == genesis_validators@.len(),
            state.base_fee == 1,
            state.mempool == mempool,
            state.state_db == state_db,
            state.block_store@.len() == 0,
            state.genesis_validators == genesis_validators,
    {
        let validator_count = genesis_validators.len();
        RpcState {
            current_height: 0,
            validator_count,
            base_fee: 1,
            mempool,
            state_db,
            block_store: Vec::new(),
            genesis_validators,
        }
    }

    /// A state for tests: an empty mempool, no accounts and no validators.
    pub fn new_mock() -> (state: Self)
        ensures
            state.current_height == 0,
            state.validator_count == 0,
            state.base_fee == 1,
            state.block_store@.len() == 0,
            state.genesis_validators@.len() == 0,
            state.mempool.entries().len() == 0,
            state.mempool.spec_config() == (MempoolConfig {
                max_size: 10_000,
                max_tx_per_account: 100,
            }),
            state.mempool.wf(),
            state.state_db.wf(),
            state.state_db@ == Map::<Seq<u8>, AccountState>::empty(),
    {
        RpcState::new(TransactionPool::new(MempoolConfig::default()), StateDB::new(), Vec::new())
    }

    /// The block at `height`: the stored one; or, for a height up to the
    /// current one without a stored block, a placeholder. Fails for a
    /// height above the current one.
    pub fn get_block(&self, height: u64) -> (r: Result<BlockResponse, RpcError>)
        ensures
            height < self.block_store@.len() ==> (r matches Ok(block) && same_block(
                block,
                self.block_store@[height as int],
            )),
            height >= self.block_store@.len() && height <= self.current_height ==> (r matches Ok(
                block,
            ) && is_placeholder(block, height)),
            height >= self.block_store@.len() && height > self.current_height ==> (r matches Err(
                error,
            ) && error.code == NOT_COMMITTED && error.message@ == not_committed_text(
                height,
                self.current_height,
            )),
    {
        if height < self.block_store.len() as u64 {
            return Ok(copy_block(&self.block_store[height as usize]));
        }
        if height > self.current_height {
            let mut message = String::from_str("block at height ");
            message.append(decimal_to_string(height).as_str());
            message.append(" not yet committed (current: ");
            message.append(decimal_to_string(self.current_height).as_str());
            message.append(")");
            return Err(RpcError { code: NOT_COMMITTED, message });
        }
        Ok(placeholder_block(height))
    }

    /// The latest block: the last stored one, or a placeholder at the
    /// current height where no block is stored.
    pub fn get_latest_block(&self) -> (r: Result<BlockResponse, RpcError>)
        ensures
            r matches Ok(block) && (if self.block_store@.len() > 0 {
                same_block(block, self.block_store@.last())
            } else {
                is_placeholder(block, self.current_height)
            }),
    {
        let count = self.block_store.len();
        if count > 0 {
            return Ok(copy_block(&self.block_store[count - 1]));
        }
        Ok(placeholder_block(self.current_height))
    }

    /// The validators of the genesis configuration, in their order.
    pub fn get_validators(&self) -> (r: Result<Vec<ValidatorResponse>, RpcError>)
        ensures
            r matches Ok(validators) && validators@.len() == self.genesis_validators@.len()
                && forall|i: int|
                0 <= i < validators@.len() ==> same_validator(
                    #[trigger] validators@[i],
                    self.genesis_validators@[i],
                ),
    {
        let mut validators: Vec<ValidatorResponse> = Vec::new();
        let mut i: usize = 0;
        while i < self.genesis_validators.len()
            invariant
                i <= self.genesis_validators@.len(),
                validators@.len() == i,
                forall|k: int|
                    0 <= k < i ==> same_validator(
                        #[trigger] validators@[k],
                        self.genesis_validators@[k],
                    ),
            decreases self.genesis_validators@.len() - i,
        {
            let validator = &self.genesis_validators[i];
            validators.push(
                ValidatorResponse {
                    pubkey: validator.pubkey.clone(),
                    stake: validator.stake,
                    commission_rate: validator.commission_rate,
                    status: validator.status.clone(),
                    performance_score: validator.performance_score,
                },
            );
            i += 1;
        }
        Ok(validators)
    }

    /// The staking information of a key; the pool is not wired in, and the
    /// amounts are zero.
    pub fn get_staking_info(&self, pubkey: String) -> (r: Result<StakingInfoResponse, RpcError>)
        ensures
            r matches Ok(info) && info.pubkey == pubkey && info.total_staked == 0
                && info.voting_power == 0,
    {
        Ok(StakingInfoResponse { pubkey, total_staked: 0, voting_power: 0 })
    }

    /// The base fee, and the target and the cap of the gas of a block.
    pub fn get_fee_info(&self) -> (r: Result<FeeInfoResponse, RpcError>)
        ensures
            r matches Ok(info) && info == (FeeInfoResponse {
                base_fee: self.base_fee,
                target_gas_per_block: 15_000_000,
                max_gas_per_block: 30_000_000,
            }),
    {
        Ok(
            FeeInfoResponse {
                base_fee: self.base_fee,
                target_gas_per_block: 15_000_000,
                max_gas_per_block: 30_000_000,
            },
        )
    }

    /// The health of the node, with the version `version`.
    pub fn health(&self, version: &str) -> (r: Result<HealthResponse, RpcError>)
        ensures
            r matches Ok(health) && health.status@ == "ok"@ && health.current_height
                == self.current_height && health.validator_count == self.validator_count
                && health.version@ == version@,
    {
        Ok(
            HealthResponse {
                status: String::from_str("ok"),
                current_height: self.current_height,
                validator_count: self.validator_count,
                version: String::from_str(version),
            },
        )
    }

    /// Submits a transaction to the mempool. Fails for a request whose
    /// fields cannot be read, and for a transaction that the mempool refuses.
    pub fn submit_transaction(&mut self, req: SubmitTransactionRequest) -> (r: Result<
        SubmitTransactionResponse,
        RpcError,
    >)
        ensures
            final(self).current_height == old(self).current_height,
            final(self).validator_count == old(self).validator_count,
            final(self).base_fee == old(self).base_fee,
            final(self).state_db == old(self).state_db,
            final(self).block_store == old(self).block_store,
            final(self).genesis_validators == old(self).genesis_validators,
            final(self).mempool.spec_config() == old(self).mempool.spec_config(),
            old(self).mempool.wf() ==> final(self).mempool.wf(),
            match requested_transaction(req) {
                None => r matches Err(error) && error.code == INVALID_PARAMS && error.message@
                    == request_fault_text(req) && final(self).mempool.entries() == old(
                    self,
                ).mempool.entries(),
                Some(view) => match refusal(
                    old(self).mempool.entries(),
                    old(self).mempool.spec_config(),
                    view,
                ) {
                    Some(why) => r matches Err(error) && error.code == REJECTED && error.message@
                        == rejection_text(why) && final(self).mempool.entries() == old(
                        self,
                    ).mempool.entries(),
                    None => r matches Ok(response) && response.accepted && response.tx_hash@
                        == hex_text(transaction_hash(view)) && final(self).mempool.entries().len()
                        == old(self).mempool.entries().len() + 1 && final(self).mempool.entries().last().pending.tx@ == view,
                },
            },
    {
        let tx = match parse_transaction_request(&req) {
            Ok(tx) => tx,
            Err(error) => {
                return Err(error);
            },
        };
        let tx_hash = hex_encode(compute_tx_hash(&tx).as_slice());
        match self.mempool.add_transaction(tx) {
            Ok(_) => Ok(SubmitTransactionResponse { tx_hash, accepted: true }),
            Err(error) => {
                let mut message = String::from_str("transaction rejected: ");
                message.append(error.to_string().as_str());
                Err(RpcError { code: REJECTED, message })
            },
        }
    }

    /// The balance and the nonce of the account with the key `pubkey`, which
    /// are zero for an account that does not exist. Fails for a key that is
    /// no hex text of thirty-two bytes.
    pub fn get_account(&self, pubkey: String) -> (r: Result<AccountResponse, RpcError>)
        requires
            self.state_db.wf(),
        ensures
            match key_field(pubkey@) {
                Some(key) => r matches Ok(account) && account.pubkey == pubkey && account.balance
                    == account_or_default(self.state_db@, key).balance && account.nonce
                    == account_or_default(self.state_db@, key).nonce,
                None => r matches Err(error) && error.code == INVALID_PARAMS && error.message@
                    == key_fault_text("pubkey"@, pubkey@),
            },
    {
        let key = match read_key_field("pubkey", pubkey.as_str()) {
            Ok(key) => key,
            Err(error) => {
                return Err(error);
            },
        };
        match self.state_db.get_account(&key) {
            Some(account) => Ok(
                AccountResponse { pubkey, balance: account.balance, nonce: account.nonce },
            ),
            None => Ok(AccountResponse { pubkey, balance: 0, nonce: 0 }),
        }
    }
}

impl Default for RpcState {
    fn default() -> (state: Self)
        ensures
            state.current_height == 0,
            state.validator_count == 0,
            state.base_fee == 1,
            state.block_store@.len() == 0,
            state.genesis_validators@.len() == 0,
            state.mempool.entries().len() == 0,
            state.mempool.wf(),
            state.state_db.wf(),
            state.state_db@ == Map::<Seq<u8>, AccountState>::empty(),
    {
        RpcState::new_mock()
    }
}

} // verus!
