//! Developer rewards: the fees that contracts earn are collected for their
//! deployers and distributed to them.

use vstd::prelude::*;
use crate::keymap::KeyMap;
use crate::keys::{PublicKey, keys_equal};
use crate::rewards::types::{ContractAddress, ContractRegistry, RewardEvent, RewardsError};

verus! {

/// The pending fees of the contracts of `developer` among the first `n`
/// pending entries.
pub open spec fn accumulated_upto(
    pending: Seq<(ContractAddress, u64)>,
    registry: Map<Seq<u8>, ContractRegistry>,
    developer: Seq<u8>,
    n: int,
) -> nat
    decreases n,
{
    if n <= 0 {
        0
    } else {
        accumulated_upto(pending, registry, developer, n - 1) + (if registry.dom().contains(
            pending[n - 1].0@,
        ) && registry[pending[n - 1].0@].deployer@ == developer {
            pending[n - 1].1 as nat
        } else {
            0nat
        })
    }
}

/// The events that distribute the first `n` pending entries at `height`: one
/// for each registered contract with pending fees, in ascending order of
/// the contract addresses.
pub open spec fn events_upto(
    pending: Seq<(ContractAddress, u64)>,
    registry: Map<Seq<u8>, ContractRegistry>,
    height: u64,
    n: int,
) -> Seq<RewardEvent>
    decreases n,
{
    if n <= 0 {
        Seq::<RewardEvent>::empty()
    } else {
        let events = events_upto(pending, registry, height, n - 1);
        let entry = pending[n - 1];
        if entry.1 > 0 && registry.dom().contains(entry.0@) {
            events.push(
                RewardEvent {
                    contract: entry.0,
                    developer: registry[entry.0@].deployer,
                    amount: entry.1,
                    height,
                },
            )
        } else {
            events
        }
    }
}

/// The sum of the amounts of a sequence of events.
pub open spec fn distributed_sum(events: Seq<RewardEvent>) -> nat
    decreases events.len(),
{
    if events.len() == 0 {
        0
    } else {
        distributed_sum(events.drop_last()) + events.last().amount as nat
    }
}

/// A total after `amount` more was distributed, at most the largest 64-bit number.
pub open spec fn capped_total(total: nat, amount: nat) -> nat {
    if total + amount <= u64::MAX {
        total + amount
    } else {
        u64::MAX as nat
    }
}

/// The registry of contracts and the fees that wait for distribution.
#[derive(Debug, Clone)]
pub struct DeveloperRewards {
    registry: KeyMap<ContractRegistry>,
    pending: KeyMap<u64>,
    total_distributed: u64,
    current_height: u64,
}

impl DeveloperRewards {
    /// The registered contracts by their addresses.
    pub closed spec fn registry(self) -> Map<Seq<u8>, ContractRegistry> {
        self.registry@
    }

    /// The fees that wait for distribution, by contract address.
    pub closed spec fn pending(self) -> Map<Seq<u8>, u64> {
        self.pending@
    }

    /// The pending fees in ascending order of the contract addresses.
    pub closed spec fn pending_entries(self) -> Seq<(ContractAddress, u64)> {
        self.pending.entries()
    }

    /// All that was ever distributed.
    pub closed spec fn distributed(self) -> u64 {
        self.total_distributed
    }

    /// The height that distributions are recorded at.
    pub closed spec fn height(self) -> u64 {
        self.current_height
    }

    pub closed spec fn wf(self) -> bool {
        self.registry.wf() && self.pending.wf()
    }

    /// The pending fees of a contract; zero where none are pending.
    pub open spec fn pending_of(self, contract: Seq<u8>) -> u64 {
        if self.pending().dom().contains(contract) {
            self.pending()[contract]
        } else {
            0
        }
    }

    /// The pending fees of all contracts of `developer`.
    pub open spec fn accumulated(self, developer: Seq<u8>) -> nat {
        accumulated_upto(
            self.pending_entries(),
            self.registry(),
            developer,
            self.pending_entries().len() as int,
        )
    }

    /// No contract, nothing pending and nothing distributed, at height 0.
    pub fn new() -> (rewards: Self)
        ensures
            rewards.wf(),
            rewards.registry() == Map::<Seq<u8>, ContractRegistry>::empty(),
            rewards.pending() == Map::<Seq<u8>, u64>::empty(),
            rewards.pending_entries().len() == 0,
            rewards.distributed() == 0,
            rewards.height() == 0,
    {
        let rewards = DeveloperRewards {
            registry: KeyMap::new(),
            pending: KeyMap::new(),
            total_distributed: 0,
            current_height: 0,
        };
        assert(rewards.registry() =~= Map::<Seq<u8>, ContractRegistry>::empty());
        assert(rewards.pending() =~= Map::<Seq<u8>, u64>::empty());
        rewards
    }

    /// Sets the height that distributions are recorded at.
    pub fn set_height(&mut self, height: u64)
        ensures
            final(self).height() == height,
            final(self).registry() == old(self).registry(),
            final(self).pending() == old(self).pending(),
            final(self).pending_entries() == old(self).pending_entries(),
            final(self).distributed() == old(self).distributed(),
            old(self).wf() ==> final(self).wf(),
    {
        self.current_height = height;
    }

    /// Registers a contract that `deployer` deployed at `height`. Fails for
    /// an address that is registered.
    pub fn register_contract(
        &mut self,
        contract_address: ContractAddress,
        deployer: PublicKey,
        height: u64,
    ) -> (r: Result<(), RewardsError>)
        requires
            old(self).wf(),
        ensures
            final(self).wf(),
            final(self).pending() == old(self).pending(),
            final(self).pending_entries() == old(self).pending_entries(),
            final(self).distributed() == old(self).distributed(),
            final(self).height() == old(self).height(),
            match r {
                Ok(_) => !old(self).registry().dom().contains(contract_address@) && final(self).registry() == old(self).registry().insert(
                    contract_address@,
                    ContractRegistry {
                        contract_address,
                        deployer,
                        deploy_height: height,
                        total_fees_earned: 0,
                    },
                ),
                Err(error) => old(self).registry().dom().contains(contract_address@) && error
                    == RewardsError::AlreadyRegistered(contract_address) && final(self).registry()
                    == old(self).registry(),
            },
    {
        if self.registry.contains_key(&contract_address) {
            return Err(RewardsError::AlreadyRegistered(contract_address));
        }
        self.registry.insert(
            contract_address,
            ContractRegistry {
                contract_address,
                deployer,
                deploy_height: height,
                total_fees_earned: 0,
            },
        );
        Ok(())
    }

    /// Records a fee that a contract earned: it is added to what the
    /// contract has earned and to what waits for distribution. Fails, and
    /// changes nothing, for a fee of zero, for a contract that is not
    /// registered, and where one of the two sums does not fit in 64 bits.
    pub fn record_fee(&mut self, contract_address: ContractAddress, fee_amount: u64) -> (r: Result<
        (),
        RewardsError,
    >)
        requires
            old(self).wf(),
        ensures
            final(self).wf(),
            final(self).distributed() == old(self).distributed(),
            final(self).height() == old(self).height(),
            r == (if fee_amount == 0 {
                Err::<(), RewardsError>(RewardsError::ZeroFeeAmount)
            } else if !old(self).registry().dom().contains(contract_address@) {
                Err(RewardsError::ContractNotFound(contract_address))
            } else if old(self).registry()[contract_address@].total_fees_earned + fee_amount
                > u64::MAX || old(self).pending_of(contract_address@) + fee_amount > u64::MAX {
                Err(RewardsError::Overflow)
            } else {
                Ok(())
            }),
            r is Err ==> final(self).registry() == old(self).registry() && final(self).pending()
                == old(self).pending() && final(self).pending_entries() == old(
                self,
            ).pending_entries(),
            r is Ok ==> {
                &&& final(self).registry() == old(self).registry().insert(
                    contract_address@,
                    ContractRegistry {
                        total_fees_earned: (old(
                            self,
                        ).registry()[contract_address@].total_fees_earned + fee_amount) as u64,
                        ..old(self).registry()[contract_address@]
                    },
                )
                &&& final(self).pending() == old(self).pending().insert(
                    contract_address@,
                    (old(self).pending_of(contract_address@) + fee_amount) as u64,
                )
            },
    {
        if fee_amount == 0 {
            return Err(RewardsError::ZeroFeeAmount);
        }
        let entry = match self.registry.get(&contract_address) {
            Some(entry) => *entry,
            None => {
                return Err(RewardsError::ContractNotFound(contract_address));
            },
        };
        let earned = match entry.total_fees_earned.checked_add(fee_amount) {
            Some(sum) => sum,
            None => {
                return Err(RewardsError::Overflow);
            },
        };
        let waiting = match self.pending.get(&contract_address) {
            Some(amount) => *amount,
            None => 0,
        };
        let pending = match waiting.checked_add(fee_amount) {
            Some(sum) => sum,
            None => {
                return Err(RewardsError::Overflow);
            },
        };
        self.registry.insert(
            contract_address,
            ContractRegistry {
                contract_address: entry.contract_address,
                deployer: entry.deployer,
                deploy_height: entry.deploy_height,
                total_fees_earned: earned,
            },
        );
        self.pending.insert(contract_address, pending);
        Ok(())
    }

    /// The deployer of a contract.
    pub fn get_developer(&self, contract_address: &ContractAddress) -> (r: Option<PublicKey>)
        requires
            self.wf(),
        ensures
            r == (if self.registry().dom().contains(contract_address@) {
                Some(self.registry()[contract_address@].deployer)
            } else {
                None
            }),
    {
        match self.registry.get(contract_address) {
            Some(entry) => Some(entry.deployer),
            None => None,
        }
    }

    /// The fees of all contracts of `developer` that wait for distribution,
    /// or nothing where their sum does not fit in 64 bits.
    pub fn checked_accumulated_rewards(&self, developer: &PublicKey) -> (total: Option<u64>)
        requires
            self.wf(),
        ensures
            total == (if self.accumulated(developer@) <= u64::MAX {
                Some(self.accumulated(developer@) as u64)
            } else {
                None
            }),
    {
        let ghost entries = self.pending.entries();
        let ghost registry = self.registry@;
        let mut total: u64 = 0;
        let mut i: usize = 0;
        while i < self.pending.len()
            invariant
                self.wf(),
                entries == self.pending.entries(),
                registry == self.registry@,
                i <= entries.len(),
                total == accumulated_upto(entries, registry, developer@, i as int),
            decreases entries.len() - i,
        {
            let contract = self.pending.key_at(i);
            let amount = *self.pending.value_at(i);
            let counts = match self.registry.get(contract) {
                Some(entry) => keys_equal(&entry.deployer, developer),
                None => false,
            };
            if counts {
                match total.checked_add(amount) {
                    Some(sum) => {
                        total = sum;
                    },
                    None => {
                        proof {
                            lemma_accumulated_grows(
                                entries,
                                registry,
                                developer@,
                                i + 1,
                                entries.len() as int,
                            );
                        }
                        return None;
                    },
                }
            }
            i += 1;
        }
        Some(total)
    }

    /// The fees of all contracts of `developer` that wait for distribution.
    pub fn get_accumulated_rewards(&self, developer: &PublicKey) -> (total: u64)
        requires
            self.wf(),
            self.accumulated(developer@) <= u64::MAX,
        ensures
            total == self.accumulated(developer@),
    {
        match self.checked_accumulated_rewards(developer) {
            Some(total) => total,
            None => 0,
        }
    }

    /// Distributes all pending fees: one event for each registered contract
    /// with pending fees, in ascending order of the contract addresses, at
    /// the current height. Nothing is pending afterwards.
    pub fn distribute_rewards(&mut self) -> (events: Vec<RewardEvent>)
        requires
            old(self).wf(),
        ensures
            final(self).wf(),
            final(self).registry() == old(self).registry(),
            final(self).height() == old(self).height(),
            final(self).pending() == Map::<Seq<u8>, u64>::empty(),
            final(self).pending_entries().len() == 0,
            events@ == events_upto(
                old(self).pending_entries(),
                old(self).registry(),
                old(self).height(),
                old(self).pending_entries().len() as int,
            ),
            final(self).distributed() == capped_total(
                old(self).distributed() as nat,
                distributed_sum(events@),
            ),
    {
        let ghost entries = self.pending.entries();
        let ghost registry = self.registry@;
        let mut events: Vec<RewardEvent> = Vec::new();
        let mut i: usize = 0;
        while i < self.pending.len()
            invariant
                self.wf(),
                entries == self.pending.entries(),
                registry == self.registry@,
                self.registry == old(self).registry,
                self.current_height == old(self).current_height,
                i <= entries.len(),
                events@ == events_upto(entries, registry, self.current_height, i as int),
                self.total_distributed == capped_total(
                    old(self).total_distributed as nat,
                    distributed_sum(events@),
                ),
            decreases entries.len() - i,
        {
            let contract = *self.pending.key_at(i);
            let amount = *self.pending.value_at(i);
            if amount > 0 {
                match self.registry.get(&contract) {
                    Some(entry) => {
                        let ghost before = events@;
                        events.push(
                            RewardEvent {
                                contract,
                                developer: entry.deployer,
                                amount,
                                height: self.current_height,
                            },
                        );
                        proof {
                            assert(events@.drop_last() =~= before);
                            assert(entries[i as int].0 =~= contract);
                        }
                        self.total_distributed = self.total_distributed.saturating_add(amount);
                    },
                    None => {},
                }
            }
            i += 1;
        }
        self.pending = KeyMap::new();
        proof {
            assert(self.pending() =~= Map::<Seq<u8>, u64>::empty());
        }
        events
    }

    /// All that was ever distributed, at most the largest 64-bit number.
    pub fn total_distributed(&self) -> (total: u64)
        ensures
            total == self.distributed(),
    {
        self.total_distributed
    }

    /// What is registered of a contract.
    pub fn get_contract(&self, address: &ContractAddress) -> (r: Option<&ContractRegistry>)
        requires
            self.wf(),
        ensures
            r.is_some() == self.registry().dom().contains(address@),
            r matches Some(entry) ==> *entry == self.registry()[address@],
    {
        self.registry.get(address)
    }
}

proof fn lemma_accumulated_grows(
    pending: Seq<(ContractAddress, u64)>,
    registry: Map<Seq<u8>, ContractRegistry>,
    developer: Seq<u8>,
    n: int,
    more: int,
)
    requires
        0 <= n <= more,
    ensures
        accumulated_upto(pending, registry, developer, n) <= accumulated_upto(
            pending,
            registry,
            developer,
            more,
        ),
    decreases more - n,
{
    if n < more {
        lemma_accumulated_grows(pending, registry, developer, n, more - 1);
    }
}

impl Default for DeveloperRewards {
    fn default() -> (rewards: Self)
        ensures
            rewards.wf(),
            rewards.registry() == Map::<Seq<u8>, ContractRegistry>::empty(),
            rewards.pending() == Map::<Seq<u8>, u64>::empty(),
            rewards.pending_entries().len() == 0,
            rewards.distributed() == 0,
            rewards.height() == 0,
    {
        DeveloperRewards::new()
    }
}

} // verus!
