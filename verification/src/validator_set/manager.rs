//! The validator set manager: registration, status changes, rotation
//! between epochs and the stake-weighted choice of the proposer.

use vstd::prelude::*;
use crate::keymap::{KeyMap, index_of, lemma_index_of_entry};
use crate::keys::{
    KeyOrder,
    PublicKey,
    compare_keys,
    lemma_lex_asymmetric,
    lemma_lex_total,
    lemma_lex_transitive,
    lex_lt,
};
use crate::staking::pool::StakingPool;
use crate::validator_set::rotation::{
    Member,
    active_entries,
    count_active,
    lemma_active_entries_insert,
    lemma_active_entries_remove,
    lemma_active_entries_update,
    lemma_active_members_of,
    law_rotation_respects_cap,
    members_of,
    only_status_changed,
    ranks_before,
    rotate,
    rotated,
    swap_views,
    swaps_of,
};
use crate::validator_set::types::{
    ValidatorInfo,
    ValidatorSetConfig,
    ValidatorSetError,
    ValidatorSetResult,
    ValidatorSetState,
    ValidatorStatus,
};

verus! {

/// The largest number of active validators.
pub const ACTIVE_SET_CAP: usize = 200;

/// The validators of `entries` that have the status `status`, in the order
/// of the entries.
pub open spec fn infos_with_status(
    entries: Seq<(PublicKey, ValidatorInfo)>,
    status: ValidatorStatus,
) -> Seq<ValidatorInfo>
    decreases entries.len(),
{
    if entries.len() == 0 {
        Seq::<ValidatorInfo>::empty()
    } else {
        let rest = infos_with_status(entries.drop_last(), status);
        if entries.last().1.status == status {
            rest.push(entries.last().1)
        } else {
            rest
        }
    }
}

/// The voting power of the active members among the first `n`.
pub open spec fn active_power_upto(m: Seq<Member>, n: int) -> nat
    decreases n,
{
    if n <= 0 {
        0
    } else {
        active_power_upto(m, n - 1) + (if m[n - 1].status == ValidatorStatus::Active {
            m[n - 1].power
        } else {
            0nat
        })
    }
}

/// The first active member among the first `n` up to which the active
/// voting power, its own included, exceeds `slot`.
pub open spec fn slot_owner(m: Seq<Member>, slot: nat, n: int) -> Option<int>
    decreases n,
{
    if n <= 0 {
        None
    } else {
        match slot_owner(m, slot, n - 1) {
            Some(i) => Some(i),
            None => if m[n - 1].status == ValidatorStatus::Active && slot < active_power_upto(
                m,
                n,
            ) {
                Some(n - 1)
            } else {
                None
            },
        }
    }
}

/// The proposer for a height by weighted round-robin. The active members
/// stand in ascending order of their keys, and each owns as many slots as it
/// has voting power; the proposer is the owner of slot `height mod P`, where
/// `P` is the active voting power. There is none where `P` is zero.
pub open spec fn weighted_proposer(m: Seq<Member>, height: u64) -> Option<int> {
    let total = active_power_upto(m, m.len() as int);
    if total == 0 {
        None
    } else {
        slot_owner(m, (height as nat) % total, m.len() as int)
    }
}

/// A slot below the active voting power has an owner, which is active.
pub proof fn lemma_slot_owner(m: Seq<Member>, slot: nat, n: int)
    requires
        0 <= n <= m.len(),
    ensures
        slot < active_power_upto(m, n) ==> slot_owner(m, slot, n) is Some,
        slot_owner(m, slot, n) matches Some(i) ==> 0 <= i < n && m[i].status
            == ValidatorStatus::Active && m[i].power > 0,
    decreases n,
{
    if n > 0 {
        lemma_slot_owner(m, slot, n - 1);
    }
}

/// Whether `infos` are validators of the map `validators`, each one once,
/// in the order of the ranking: the strongest first, and of two with the
/// same voting power the one with the smaller key.
pub open spec fn ranked_members(
    infos: Seq<ValidatorInfo>,
    validators: Map<Seq<u8>, ValidatorInfo>,
    pool: StakingPool,
) -> bool {
    &&& forall|i: int|
        0 <= i < infos.len() ==> validators.dom().contains((#[trigger] infos[i]).pubkey@)
            && validators[infos[i].pubkey@] == infos[i]
    &&& forall|i: int, j: int|
        0 <= i < j < infos.len() ==> ranks_before(
            pool.voting_power((#[trigger] infos[i]).pubkey@),
            infos[i].pubkey@,
            pool.voting_power((#[trigger] infos[j]).pubkey@),
            infos[j].pubkey@,
        )
}

/// Whether the first of two validators comes strictly before the second in
/// the ranking.
fn stands_before(power_a: u64, key_a: &PublicKey, power_b: u64, key_b: &PublicKey) -> (r: bool)
    ensures
        r == ranks_before(power_a as nat, key_a@, power_b as nat, key_b@),
{
    if power_a > power_b {
        true
    } else if power_a < power_b {
        false
    } else {
        match compare_keys(key_a, key_b) {
            KeyOrder::Less => true,
            _ => false,
        }
    }
}

/// The validator set manager.
#[derive(Debug, Clone)]
pub struct ValidatorSetManager {
    state: ValidatorSetState,
}

impl ValidatorSetManager {
    /// The state of the validator set.
    pub closed spec fn state(self) -> ValidatorSetState {
        self.state
    }

    /// The registered validators by the bytes of their public keys.
    pub open spec fn view(self) -> Map<Seq<u8>, ValidatorInfo> {
        self.state().validators@
    }

    /// The registered validators in ascending order of their keys.
    pub open spec fn entries(self) -> Seq<(PublicKey, ValidatorInfo)> {
        self.state().validators.entries()
    }

    /// Each validator is registered once, under the key that it records.
    pub open spec fn wf(self) -> bool {
        &&& self.state().validators.wf()
        &&& forall|i: int|
            0 <= i < self.entries().len() ==> (#[trigger] self.entries()[i]).1.pubkey
                == self.entries()[i].0
    }

    /// How many validators are active.
    pub open spec fn active(self) -> nat {
        active_entries(self.entries())
    }

    /// No more validators are active than the cap of the configuration allows.
    pub open spec fn within_cap(self) -> bool {
        self.active() <= self.state().config.active_set_cap
    }

    /// The members of the set with their voting power in `pool`.
    pub open spec fn members(self, pool: StakingPool) -> Seq<Member> {
        members_of(self.entries(), pool)
    }

    /// An empty validator set with the default configuration.
    pub fn new() -> (manager: Self)
        ensures
            manager.wf(),
            manager.entries().len() == 0,
            manager.state().config == (ValidatorSetConfig {
                active_set_cap: 200,
                epoch_length: 100,
                min_stake: 1_000_000,
            }),
            manager.state().current_epoch == 0,
            manager.within_cap(),
    {
        ValidatorSetManager {
            state: ValidatorSetState {
                validators: KeyMap::new(),
                config: ValidatorSetConfig::default(),
                current_epoch: 0,
            },
        }
    }

    /// An empty validator set with the configuration `config`.
    pub fn with_config(config: ValidatorSetConfig) -> (manager: Self)
        ensures
            manager.wf(),
            manager.entries().len() == 0,
            manager.state().config == config,
            manager.state().current_epoch == 0,
            manager.within_cap(),
    {
        ValidatorSetManager {
            state: ValidatorSetState { validators: KeyMap::new(), config, current_epoch: 0 },
        }
    }

    /// Registers a validator. Fails, and changes nothing, for a key that is
    /// registered and for a stake below the minimum. The validator becomes
    /// Active where fewer validators than the cap are active, else Standby,
    /// and starts with the full performance score of 10_000.
    pub fn register_validator(
        &mut self,
        pubkey: PublicKey,
        initial_stake: u64,
        commission_rate: u16,
        current_height: u64,
    ) -> (r: ValidatorSetResult<ValidatorStatus>)
        requires
            old(self).wf(),
        ensures
            final(self).wf(),
            final(self).state().config == old(self).state().config,
            final(self).state().current_epoch == old(self).state().current_epoch,
            old(self).within_cap() ==> final(self).within_cap(),
            r == (if old(self)@.dom().contains(pubkey@) {
                Err::<ValidatorStatus, ValidatorSetError>(
                    ValidatorSetError::AlreadyRegistered(pubkey),
                )
            } else if initial_stake < old(self).state().config.min_stake {
                Err(
                    ValidatorSetError::InsufficientStake {
                        have: initial_stake,
                        need: old(self).state().config.min_stake,
                    },
                )
            } else if old(self).active() < old(self).state().config.active_set_cap {
                Ok(ValidatorStatus::Active)
            } else {
                Ok(ValidatorStatus::Standby)
            }),
            r is Err ==> final(self)@ == old(self)@ && final(self).entries() == old(self).entries(),
            r matches Ok(status) ==> {
                &&& final(self)@ == old(self)@.insert(
                    pubkey@,
                    ValidatorInfo {
                        pubkey,
                        stake: initial_stake,
                        commission_rate,
                        status,
                        performance_score: 10_000,
                        join_height: current_height,
                    },
                )
                &&& final(self).active() == old(self).active() + (if status
                    == ValidatorStatus::Active {
                    1nat
                } else {
                    0nat
                })
            },
    {
        if self.state.validators.contains_key(&pubkey) {
            return Err(ValidatorSetError::AlreadyRegistered(pubkey));
        }
        if initial_stake < self.state.config.min_stake {
            return Err(
                ValidatorSetError::InsufficientStake {
                    have: initial_stake,
                    need: self.state.config.min_stake,
                },
            );
        }
        let active = count_active(&self.state.validators);
        let status = if active < self.state.config.active_set_cap {
            ValidatorStatus::Active
        } else {
            ValidatorStatus::Standby
        };
        let info = ValidatorInfo {
            pubkey,
            stake: initial_stake,
            commission_rate,
            status,
            performance_score: 10_000,
            join_height: current_height,
        };
        let ghost before = self.state.validators.entries();
        self.state.validators.insert(pubkey, info);
        proof {
            let after = self.state.validators.entries();
            let i = choose|i: int|
                0 <= i <= before.len() && after == #[trigger] before.insert(i, (pubkey, info));
            lemma_active_entries_insert(before, i, (pubkey, info));
            assert forall|j: int| 0 <= j < after.len() implies (#[trigger] after[j]).1.pubkey
                == after[j].0 by {
                if j < i {
                    assert(after[j] == before[j]);
                } else if j > i {
                    assert(after[j] == before[j - 1]);
                }
            }
        }
        Ok(status)
    }

    /// Removes a validator from the set and returns what was recorded of
    /// it. Fails for a key that is not registered.
    pub fn deregister_validator(&mut self, pubkey: &PublicKey) -> (r: ValidatorSetResult<
        ValidatorInfo,
    >)
        requires
            old(self).wf(),
        ensures
            final(self).wf(),
            final(self).state().config == old(self).state().config,
            final(self).state().current_epoch == old(self).state().current_epoch,
            old(self).within_cap() ==> final(self).within_cap(),
            final(self)@ == old(self)@.remove(pubkey@),
            r == (if old(self)@.dom().contains(pubkey@) {
                Ok::<ValidatorInfo, ValidatorSetError>(old(self)@[pubkey@])
            } else {
                Err(ValidatorSetError::NotFound(*pubkey))
            }),
    {
        let ghost before = self.state.validators.entries();
        match self.state.validators.remove(pubkey) {
            Some(info) => {
                proof {
                    let i = index_of(before, pubkey@);
                    let after = self.state.validators.entries();
                    lemma_active_entries_remove(before, i);
                    assert forall|j: int| 0 <= j < after.len() implies (
                    #[trigger] after[j]).1.pubkey == after[j].0 by {
                        if j < i {
                            assert(after[j] == before[j]);
                        } else {
                            assert(after[j] == before[j + 1]);
                        }
                    }
                }
                Ok(info)
            },
            None => Err(ValidatorSetError::NotFound(*pubkey)),
        }
    }

    /// Stores `info` in place of what is recorded under its key.
    fn replace_info(&mut self, pubkey: &PublicKey, info: ValidatorInfo)
        requires
            old(self).wf(),
            old(self)@.dom().contains(pubkey@),
            info.pubkey == old(self)@[pubkey@].pubkey,
        ensures
            final(self).wf(),
            final(self).state().config == old(self).state().config,
            final(self).state().current_epoch == old(self).state().current_epoch,
            final(self)@ == old(self)@.insert(pubkey@, info),
            final(self).entries() == old(self).entries().update(
                index_of(old(self).entries(), pubkey@),
                (*pubkey, info),
            ),
            final(self).active() + (if old(self)@[pubkey@].status == ValidatorStatus::Active {
                1nat
            } else {
                0nat
            }) == old(self).active() + (if info.status == ValidatorStatus::Active {
                1nat
            } else {
                0nat
            }),
    {
        let ghost before = self.state.validators.entries();
        self.state.validators.insert(*pubkey, info);
        proof {
            let i = index_of(before, pubkey@);
            let after = self.state.validators.entries();
            lemma_index_of_entry(before, i);
            lemma_active_entries_update(before, i, (*pubkey, info));
            assert(before[i].0 =~= *pubkey);
            assert forall|j: int| 0 <= j < after.len() implies (#[trigger] after[j]).1.pubkey
                == after[j].0 by {
                if j != i {
                    assert(after[j] == before[j]);
                }
            }
        }
    }

    /// Records a new stake for a validator. Fails for a key that is not
    /// registered.
    pub fn update_stake(&mut self, pubkey: &PublicKey, new_stake: u64) -> (r: ValidatorSetResult<
        (),
    >)
        requires
            old(self).wf(),
        ensures
            final(self).wf(),
            final(self).state().config == old(self).state().config,
            final(self).state().current_epoch == old(self).state().current_epoch,
            final(self).active() == old(self).active(),
            match r {
                Ok(_) => old(self)@.dom().contains(pubkey@) && final(self)@ == old(self)@.insert(
                    pubkey@,
                    ValidatorInfo { stake: new_stake, ..old(self)@[pubkey@] },
                ),
                Err(error) => !old(self)@.dom().contains(pubkey@) && error
                    == ValidatorSetError::NotFound(*pubkey) && final(self)@ == old(self)@
                    && final(self).entries() == old(self).entries(),
            },
    {
        let info = match self.state.validators.get(pubkey) {
            Some(info) => *info,
            None => {
                return Err(ValidatorSetError::NotFound(*pubkey));
            },
        };
        self.replace_info(
            pubkey,
            ValidatorInfo {
                pubkey: info.pubkey,
                stake: new_stake,
                commission_rate: info.commission_rate,
                status: info.status,
                performance_score: info.performance_score,
                join_height: info.join_height,
            },
        );
        Ok(())
    }

    /// The active validators in the order of the ranking: the strongest
    /// first.
    pub fn get_active_set(&self, staking_pool: &StakingPool) -> (active: Vec<ValidatorInfo>)
        requires
            self.wf(),
        ensures
            active@.len() == self.active(),
            forall|i: int| 0 <= i < active@.len() ==> (#[trigger] active@[i]).status
                == ValidatorStatus::Active,
            ranked_members(active@, self@, *staking_pool),
    {
        let ghost entries = self.state.validators.entries();
        let mut active: Vec<ValidatorInfo> = Vec::new();
        let mut powers: Vec<u64> = Vec::new();
        let mut i: usize = 0;
        proof {
            assert(entries.subrange(0, 0) =~= Seq::<(PublicKey, ValidatorInfo)>::empty());
        }
        while i < self.state.validators.len()
            invariant
                self.wf(),
                entries == self.state.validators.entries(),
                i <= entries.len(),
                active@.len() == active_entries(entries.subrange(0, i as int)),
                powers@.len() == active@.len(),
                forall|n: int|
                    0 <= n < active@.len() ==> {
                        &&& (#[trigger] active@[n]).status == ValidatorStatus::Active
                        &&& powers@[n] == staking_pool.voting_power(active@[n].pubkey@)
                        &&& exists|e: int|
                            0 <= e < i && #[trigger] entries[e] == (active@[n].pubkey, active@[n])
                    },
                forall|a: int, b: int|
                    0 <= a < b < active@.len() ==> ranks_before(
                        staking_pool.voting_power((#[trigger] active@[a]).pubkey@),
                        active@[a].pubkey@,
                        staking_pool.voting_power((#[trigger] active@[b]).pubkey@),
                        active@[b].pubkey@,
                    ),
            decreases entries.len() - i,
        {
            proof {
                assert(entries.subrange(0, i + 1).drop_last() =~= entries.subrange(0, i as int));
            }
            let info = *self.state.validators.value_at(i);
            if info.status == ValidatorStatus::Active {
                let power = staking_pool.get_voting_power(&info.pubkey);
                let mut pos: usize = 0;
                while pos < active.len() && stands_before(
                    powers[pos],
                    &active[pos].pubkey,
                    power,
                    &info.pubkey,
                )
                    invariant
                        pos <= active@.len(),
                        powers@.len() == active@.len(),
                        forall|n: int|
                            0 <= n < active@.len() ==> #[trigger] powers@[n]
                                == staking_pool.voting_power(active@[n].pubkey@),
                        power == staking_pool.voting_power(info.pubkey@),
                        forall|n: int|
                            0 <= n < pos ==> ranks_before(
                                staking_pool.voting_power((#[trigger] active@[n]).pubkey@),
                                active@[n].pubkey@,
                                power as nat,
                                info.pubkey@,
                            ),
                    decreases active@.len() - pos,
                {
                    pos += 1;
                }
                let ghost before = active@;
                let ghost before_powers = powers@;
                active.insert(pos, info);
                powers.insert(pos, power);
                proof {
                    let after = active@;
                    assert(entries[i as int] == (info.pubkey, info)) by {
                        assert(entries[i as int].1.pubkey == entries[i as int].0);
                    }
                    assert forall|n: int| 0 <= n < after.len() implies {
                        &&& (#[trigger] after[n]).status == ValidatorStatus::Active
                        &&& powers@[n] == staking_pool.voting_power(after[n].pubkey@)
                        &&& exists|e: int|
                            0 <= e < i + 1 && #[trigger] entries[e] == (after[n].pubkey, after[n])
                    } by {
                        if n < pos {
                            assert(after[n] == before[n]);
                            let e = choose|e: int|
                                0 <= e < i && #[trigger] entries[e] == (before[n].pubkey, before[n]);
                            assert(entries[e] == (after[n].pubkey, after[n]));
                        } else if n == pos {
                            assert(entries[i as int] == (after[n].pubkey, after[n]));
                        } else {
                            assert(after[n] == before[n - 1]);
                            let e = choose|e: int|
                                0 <= e < i && #[trigger] entries[e] == (
                                    before[n - 1].pubkey,
                                    before[n - 1],
                                );
                            assert(entries[e] == (after[n].pubkey, after[n]));
                        }
                    }
                    assert forall|a: int, b: int| 0 <= a < b < after.len() implies ranks_before(
                        staking_pool.voting_power((#[trigger] after[a]).pubkey@),
                        after[a].pubkey@,
                        staking_pool.voting_power((#[trigger] after[b]).pubkey@),
                        after[b].pubkey@,
                    ) by {
                        if b < pos {
                            assert(after[a] == before[a] && after[b] == before[b]);
                        } else if b == pos {
                            assert(after[a] == before[a]);
                        } else if a < pos {
                            assert(after[a] == before[a] && after[b] == before[b - 1]);
                        } else if a == pos {
                            let other = before[b - 1];
                            let first = before[pos as int];
                            assert(after[b] == other);
                            let e = choose|e: int|
                                0 <= e < i && #[trigger] entries[e] == (first.pubkey, first);
                            assert(lex_lt(entries[e].0@, entries[i as int].0@));
                            lemma_lex_asymmetric(first.pubkey@, info.pubkey@);
                            assert(before_powers[pos as int] == staking_pool.voting_power(
                                first.pubkey@,
                            ));
                            if b - 1 > pos {
                                assert(ranks_before(
                                    staking_pool.voting_power(first.pubkey@),
                                    first.pubkey@,
                                    staking_pool.voting_power(other.pubkey@),
                                    other.pubkey@,
                                ));
                                if staking_pool.voting_power(first.pubkey@)
                                    == staking_pool.voting_power(other.pubkey@) && power
                                    == staking_pool.voting_power(first.pubkey@) {
                                    lemma_lex_total(info.pubkey@, first.pubkey@);
                                    lemma_lex_transitive(
                                        info.pubkey@,
                                        first.pubkey@,
                                        other.pubkey@,
                                    );
                                }
                            } else {
                                lemma_lex_total(info.pubkey@, first.pubkey@);
                            }
                        } else {
                            assert(after[a] == before[a - 1] && after[b] == before[b - 1]);
                        }
                    }
                }
            }
            i += 1;
        }
        proof {
            assert(entries.subrange(0, i as int) =~= entries);
            assert forall|n: int| 0 <= n < active@.len() implies self@.dom().contains(
                (#[trigger] active@[n]).pubkey@,
            ) && self@[active@[n].pubkey@] == active@[n] by {
                let e = choose|e: int|
                    0 <= e < i && #[trigger] entries[e] == (active@[n].pubkey, active@[n]);
                lemma_index_of_entry(entries, e);
            }
        }
        active
    }

    /// The validators with the status `status`, in ascending order of their keys.
    fn with_status(&self, status: ValidatorStatus) -> (found: Vec<ValidatorInfo>)
        ensures
            found@ == infos_with_status(self.entries(), status),
    {
        let ghost entries = self.state.validators.entries();
        let mut found: Vec<ValidatorInfo> = Vec::new();
        let mut i: usize = 0;
        proof {
            assert(entries.subrange(0, 0) =~= Seq::<(PublicKey, ValidatorInfo)>::empty());
        }
        while i < self.state.validators.len()
            invariant
                entries == self.state.validators.entries(),
                i <= entries.len(),
                found@ == infos_with_status(entries.subrange(0, i as int), status),
            decreases entries.len() - i,
        {
            proof {
                assert(entries.subrange(0, i + 1).drop_last() =~= entries.subrange(0, i as int));
            }
            let info = *self.state.validators.value_at(i);
            if info.status == status {
                found.push(info);
            }
            i += 1;
        }
        proof {
            assert(entries.subrange(0, i as int) =~= entries);
        }
        found
    }

    /// The standby validators, in ascending order of their keys.
    pub fn get_standby_set(&self) -> (standby: Vec<ValidatorInfo>)
        ensures
            standby@ == infos_with_status(self.entries(), ValidatorStatus::Standby),
    {
        self.with_status(ValidatorStatus::Standby)
    }

    /// The jailed validators, in ascending order of their keys.
    pub fn get_jailed_set(&self) -> (jailed: Vec<ValidatorInfo>)
        ensures
            jailed@ == infos_with_status(self.entries(), ValidatorStatus::Jailed),
    {
        self.with_status(ValidatorStatus::Jailed)
    }

    /// Rotates the active set between two epochs and counts the epoch: the
    /// strongest standby validators replace the weakest active ones while
    /// they have strictly more voting power, and free places up to the cap
    /// are filled with the strongest standby validators. Returns the swaps,
    /// each as the promoted and the demoted key.
    pub fn epoch_rotation(&mut self, staking_pool: &StakingPool) -> (swaps: Vec<
        (PublicKey, PublicKey),
    >)
        requires
            old(self).wf(),
            old(self).state().current_epoch < u64::MAX,
        ensures
            final(self).wf(),
            final(self).state().config == old(self).state().config,
            final(self).state().current_epoch == old(self).state().current_epoch + 1,
            only_status_changed(old(self).entries(), final(self).entries()),
            final(self).members(*staking_pool) == rotated(
                old(self).members(*staking_pool),
                old(self).state().config.active_set_cap as nat,
            ),
            swap_views(swaps@) == swaps_of(old(self).members(*staking_pool)),
            old(self).within_cap() ==> final(self).within_cap(),
    {
        let swaps = rotate(
            &mut self.state.validators,
            staking_pool,
            self.state.config.active_set_cap,
        );
        self.state.current_epoch += 1;
        proof {
            lemma_active_members_of(old(self).entries(), *staking_pool);
            lemma_active_members_of(self.entries(), *staking_pool);
            if old(self).within_cap() {
                law_rotation_respects_cap(
                    old(self).members(*staking_pool),
                    old(self).state().config.active_set_cap as nat,
                );
            }
        }
        swaps
    }

    /// Whether `pubkey` is registered and active.
    pub fn is_active(&self, pubkey: &PublicKey) -> (r: bool)
        requires
            self.wf(),
        ensures
            r == (self@.dom().contains(pubkey@) && self@[pubkey@].status
                == ValidatorStatus::Active),
    {
        match self.state.validators.get(pubkey) {
            Some(info) => info.status == ValidatorStatus::Active,
            None => false,
        }
    }

    /// What is recorded of the validator `pubkey`.
    pub fn get_validator(&self, pubkey: &PublicKey) -> (r: Option<&ValidatorInfo>)
        requires
            self.wf(),
        ensures
            r.is_some() == self@.dom().contains(pubkey@),
            r matches Some(info) ==> *info == self@[pubkey@],
    {
        self.state.validators.get(pubkey)
    }

    /// What is recorded of the validator `pubkey`, to be changed in place.
    /// The key that is recorded must stay as it is.
    pub fn get_validator_mut(&mut self, pubkey: &PublicKey) -> (r: Option<&mut ValidatorInfo>)
        requires
            old(self).wf(),
        ensures
            r.is_some() == old(self)@.dom().contains(pubkey@),
            final(self).state().config == old(self).state().config,
            final(self).state().current_epoch == old(self).state().current_epoch,
            final(self).state().validators.wf(),
            match r {
                Some(info) => *info == old(self)@[pubkey@] && final(self)@ == old(self)@.insert(
                    pubkey@,
                    *final(info),
                ) && final(self).entries() == old(self).entries().update(
                    index_of(old(self).entries(), pubkey@),
                    (*pubkey, *final(info)),
                ),
                None => final(self)@ == old(self)@ && final(self).entries() == old(self).entries(),
            },
    {
        self.state.validators.get_mut(pubkey)
    }

    /// Jails a validator, whatever its status was. Fails for a key that is
    /// not registered.
    pub fn jail(&mut self, pubkey: &PublicKey) -> (r: ValidatorSetResult<()>)
        requires
            old(self).wf(),
        ensures
            final(self).wf(),
            final(self).state().config == old(self).state().config,
            final(self).state().current_epoch == old(self).state().current_epoch,
            old(self).within_cap() ==> final(self).within_cap(),
            match r {
                Ok(_) => old(self)@.dom().contains(pubkey@) && final(self)@ == old(self)@.insert(
                    pubkey@,
                    ValidatorInfo { status: ValidatorStatus::Jailed, ..old(self)@[pubkey@] },
                ),
                Err(error) => !old(self)@.dom().contains(pubkey@) && error
                    == ValidatorSetError::NotFound(*pubkey) && final(self)@ == old(self)@,
            },
    {
        let info = match self.state.validators.get(pubkey) {
            Some(info) => *info,
            None => {
                return Err(ValidatorSetError::NotFound(*pubkey));
            },
        };
        self.replace_info(
            pubkey,
            ValidatorInfo {
                pubkey: info.pubkey,
                stake: info.stake,
                commission_rate: info.commission_rate,
                status: ValidatorStatus::Jailed,
                performance_score: info.performance_score,
                join_height: info.join_height,
            },
        );
        Ok(())
    }

    /// Moves a jailed validator to Standby. Fails for a key that is not
    /// registered and for a validator that is not jailed.
    pub fn unjail(&mut self, pubkey: &PublicKey) -> (r: ValidatorSetResult<()>)
        requires
            old(self).wf(),
        ensures
            final(self).wf(),
            final(self).state().config == old(self).state().config,
            final(self).state().current_epoch == old(self).state().current_epoch,
            old(self).within_cap() ==> final(self).within_cap(),
            r is Err ==> final(self)@ == old(self)@,
            r == (if !old(self)@.dom().contains(pubkey@) {
                Err::<(), ValidatorSetError>(ValidatorSetError::NotFound(*pubkey))
            } else if old(self)@[pubkey@].status != ValidatorStatus::Jailed {
                Err(ValidatorSetError::NotJailed)
            } else {
                Ok(())
            }),
            r is Ok ==> final(self)@ == old(self)@.insert(
                pubkey@,
                ValidatorInfo { status: ValidatorStatus::Standby, ..old(self)@[pubkey@] },
            ),
    {
        let info = match self.state.validators.get(pubkey) {
            Some(info) => *info,
            None => {
                return Err(ValidatorSetError::NotFound(*pubkey));
            },
        };
        if info.status != ValidatorStatus::Jailed {
            return Err(ValidatorSetError::NotJailed);
        }
        self.replace_info(
            pubkey,
            ValidatorInfo {
                pubkey: info.pubkey,
                stake: info.stake,
                commission_rate: info.commission_rate,
                status: ValidatorStatus::Standby,
                performance_score: info.performance_score,
                join_height: info.join_height,
            },
        );
        Ok(())
    }

    /// The proposer for `height` by weighted round-robin over the voting
    /// power of the active validators, which stand in ascending order of
    /// their keys. There is none where no active validator has voting
    /// power. A validator that is not active is never the proposer.
    pub fn get_proposer(&self, height: u64, staking_pool: &StakingPool) -> (r: Option<PublicKey>)
        ensures
            match weighted_proposer(self.members(*staking_pool), height) {
                Some(i) => r == Some(self.entries()[i].0) && 0 <= i < self.entries().len()
                    && self.entries()[i].1.status == ValidatorStatus::Active,
                None => r is None,
            },
            r is None <==> active_power_upto(
                self.members(*staking_pool),
                self.entries().len() as int,
            ) == 0,
    {
        let ghost entries = self.state.validators.entries();
        let ghost m = members_of(entries, *staking_pool);
        let count: usize = self.state.validators.len();
        let mut powers: Vec<u64> = Vec::new();
        let mut total: u128 = 0;
        let mut i: usize = 0;
        while i < count
            invariant
                i <= count,
                count == entries.len(),
                entries == self.state.validators.entries(),
                m == members_of(entries, *staking_pool),
                powers@.len() == i,
                forall|j: int| 0 <= j < i ==> #[trigger] powers@[j] == m[j].power,
                total == active_power_upto(m, i as int),
                total <= i * 0xffff_ffff_ffff_ffff,
            decreases count - i,
        {
            let power = staking_pool.get_voting_power(self.state.validators.key_at(i));
            powers.push(power);
            if self.state.validators.value_at(i).status == ValidatorStatus::Active {
                assert(i * 0xffff_ffff_ffff_ffff + 0xffff_ffff_ffff_ffff <= 0xffff_ffff_ffff_ffff
                    * 0xffff_ffff_ffff_ffff + 0xffff_ffff_ffff_ffff) by (nonlinear_arith)
                    requires
                        i <= 0xffff_ffff_ffff_ffff,
                ;
                total = total + power as u128;
            }
            i += 1;
        }
        if total == 0 {
            return None;
        }
        let slot: u128 = (height as u128) % total;
        let mut cumulative: u128 = 0;
        let mut k: usize = 0;
        proof {
            lemma_slot_owner(m, slot as nat, count as int);
        }
        while k < count
            invariant
                k <= count,
                count == entries.len(),
                entries == self.state.validators.entries(),
                m == members_of(entries, *staking_pool),
                powers@.len() == count,
                forall|j: int| 0 <= j < count ==> #[trigger] powers@[j] == m[j].power,
                cumulative == active_power_upto(m, k as int),
                cumulative <= k * 0xffff_ffff_ffff_ffff,
                total == active_power_upto(m, count as int),
                total > 0,
                slot == (height as nat) % (total as nat),
                m.len() == count,
                slot_owner(m, slot as nat, k as int) is None,
                slot_owner(m, slot as nat, count as int) is Some,
            decreases count - k,
        {
            if self.state.validators.value_at(k).status == ValidatorStatus::Active {
                assert(k * 0xffff_ffff_ffff_ffff + 0xffff_ffff_ffff_ffff <= 0xffff_ffff_ffff_ffff
                    * 0xffff_ffff_ffff_ffff + 0xffff_ffff_ffff_ffff) by (nonlinear_arith)
                    requires
                        k <= 0xffff_ffff_ffff_ffff,
                ;
                cumulative = cumulative + powers[k] as u128;
                if slot < cumulative {
                    proof {
                        assert(slot_owner(m, slot as nat, k + 1) == Some(k as int));
                        lemma_slot_owner_stays(m, slot as nat, k + 1, count as int);
                        assert(weighted_proposer(m, height) == Some(k as int));
                    }
                    return Some(*self.state.validators.key_at(k));
                }
            }
            k += 1;
        }
        None
    }

    /// The current epoch.
    pub fn current_epoch(&self) -> (epoch: u64)
        ensures
            epoch == self.state().current_epoch,
    {
        self.state.current_epoch
    }

    /// How many validators are active.
    pub fn active_count(&self) -> (n: usize)
        ensures
            n == self.active(),
    {
        count_active(&self.state.validators)
    }

    /// How many validators are registered, whatever their status.
    pub fn total_count(&self) -> (n: usize)
        ensures
            n == self.entries().len(),
    {
        self.state.validators.len()
    }

    /// The map of the registered validators.
    pub fn validators(&self) -> (map: &KeyMap<ValidatorInfo>)
        ensures
            *map == self.state().validators,
    {
        &self.state.validators
    }

    /// The map of the registered validators, to be changed in place.
    pub fn validators_mut(&mut self) -> (map: &mut KeyMap<ValidatorInfo>)
        ensures
            *map == old(self).state().validators,
            final(self).state().validators == *final(map),
            final(self).state().config == old(self).state().config,
            final(self).state().current_epoch == old(self).state().current_epoch,
    {
        &mut self.state.validators
    }
}

/// Once a slot has an owner among the first `n` members it has the same
/// owner among more.
pub proof fn lemma_slot_owner_stays(m: Seq<Member>, slot: nat, n: int, more: int)
    requires
        0 <= n <= more <= m.len(),
        slot_owner(m, slot, n) is Some,
    ensures
        slot_owner(m, slot, more) == slot_owner(m, slot, n),
    decreases more - n,
{
    if n < more {
        lemma_slot_owner_stays(m, slot, n, more - 1);
    }
}

impl Default for ValidatorSetManager {
    fn default() -> (manager: Self)
        ensures
            manager.wf(),
            manager.entries().len() == 0,
            manager.state().config == (ValidatorSetConfig {
                active_set_cap: 200,
                epoch_length: 100,
                min_stake: 1_000_000,
            }),
            manager.state().current_epoch == 0,
            manager.within_cap(),
    {
        ValidatorSetManager::new()
    }
}

/// A jailed or standby validator is never the proposer: the proposer that
/// the weighted round-robin gives is active and has voting power.
pub proof fn law_proposer_is_active(m: Seq<Member>, height: u64)
    ensures
        weighted_proposer(m, height) matches Some(i) ==> 0 <= i < m.len() && m[i].status
            == ValidatorStatus::Active && m[i].power > 0,
        weighted_proposer(m, height) is None <==> active_power_upto(m, m.len() as int) == 0,
{
    let total = active_power_upto(m, m.len() as int);
    if total > 0 {
        let slot = (height as nat) % total;
        lemma_slot_owner(m, slot, m.len() as int);
    }
}

} // verus!
