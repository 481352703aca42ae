//! The staking pool: stakes and delegations with their locks, first-in
//! first-out withdrawal, epoch rewards and voting power.

use vstd::prelude::*;
use crate::keys::{PublicKey, keys_equal};
use crate::staking::rewards::{calculate_epoch_reward, reward_of};
use crate::staking::tiers::LockTier;
use crate::staking::types::{DelegationEntry, StakeEntry, StakingError, StakingState};

verus! {

/// Whether a position with the given unlock epoch can be taken out in
/// `current_epoch`. A permanent lock, which has no unlock epoch, never can.
pub open spec fn is_unlocked_at(unlock_epoch: Option<u64>, current_epoch: u64) -> bool {
    match unlock_epoch {
        None => false,
        Some(unlock) => current_epoch >= unlock,
    }
}

/// Whether a position with the given unlock epoch can be taken out in
/// `current_epoch`.
pub fn is_unlocked(unlock_epoch: Option<u64>, current_epoch: u64) -> (r: bool)
    ensures
        r == is_unlocked_at(unlock_epoch, current_epoch),
{
    match unlock_epoch {
        None => false,
        Some(unlock) => current_epoch >= unlock,
    }
}

/// The epoch from which a position made in `current_epoch` can be taken out.
pub open spec fn unlock_epoch_for(tier: LockTier, current_epoch: u64) -> Option<u64> {
    match tier.spec_lock_duration_epochs() {
        Some(duration) => Some((current_epoch + duration) as u64),
        None => None,
    }
}

/// The sum of the amounts of a sequence of stake entries.
pub open spec fn stake_sum(entries: Seq<StakeEntry>) -> nat
    decreases entries.len(),
{
    if entries.len() == 0 {
        0
    } else {
        stake_sum(entries.drop_last()) + entries.last().amount as nat
    }
}

/// Whether an entry belongs to `staker` and is unlocked in `epoch`.
pub open spec fn stake_matches(entry: StakeEntry, staker: Seq<u8>, epoch: u64) -> bool {
    entry.staker@ == staker && is_unlocked_at(entry.unlock_epoch, epoch)
}

/// Whether `staker` has any entry.
pub open spec fn has_stake(entries: Seq<StakeEntry>, staker: Seq<u8>) -> bool {
    exists|i: int| 0 <= i < entries.len() && (#[trigger] entries[i]).staker@ == staker
}

/// The sum of the unlocked amounts of `staker`.
pub open spec fn unlocked_stake(entries: Seq<StakeEntry>, staker: Seq<u8>, epoch: u64) -> nat
    decreases entries.len(),
{
    if entries.len() == 0 {
        0
    } else {
        unlocked_stake(entries.drop_last(), staker, epoch) + (if stake_matches(
            entries.last(),
            staker,
            epoch,
        ) {
            entries.last().amount as nat
        } else {
            0nat
        })
    }
}

/// What is left of a position when `amount` is taken from the matching
/// positions in order, and `before` stood in the matching positions ahead of
/// it: all of it, a rest of it, or nothing (`None`).
pub open spec fn left_after(held: u64, matches: bool, before: nat, amount: nat) -> Option<u64> {
    if !matches || before >= amount {
        Some(held)
    } else if before + held <= amount {
        None
    } else {
        Some((before + held - amount) as u64)
    }
}

/// The entries after `amount` was taken from the unlocked entries of
/// `staker`, the earliest first.
pub open spec fn stakes_after_unstake(
    entries: Seq<StakeEntry>,
    staker: Seq<u8>,
    epoch: u64,
    amount: nat,
) -> Seq<StakeEntry>
    decreases entries.len(),
{
    if entries.len() == 0 {
        Seq::<StakeEntry>::empty()
    } else {
        let rest = stakes_after_unstake(entries.drop_last(), staker, epoch, amount);
        let last = entries.last();
        match left_after(
            last.amount,
            stake_matches(last, staker, epoch),
            unlocked_stake(entries.drop_last(), staker, epoch),
            amount,
        ) {
            Some(left) => rest.push(StakeEntry { amount: left, ..last }),
            None => rest,
        }
    }
}

/// Whether `amount` can be taken out of the stakes of `staker`: it is above
/// zero, the staker has stakes, and at least `amount` of them is unlocked.
pub open spec fn can_unstake(entries: Seq<StakeEntry>, staker: Seq<u8>, epoch: u64, amount: u64) -> bool {
    &&& amount > 0
    &&& has_stake(entries, staker)
    &&& unlocked_stake(entries, staker, epoch) >= amount
}

/// The smaller of two numbers.
pub open spec fn smaller(a: nat, b: nat) -> nat {
    if a <= b {
        a
    } else {
        b
    }
}

proof fn lemma_unlocked_stake_bounded(entries: Seq<StakeEntry>, staker: Seq<u8>, epoch: u64)
    ensures
        unlocked_stake(entries, staker, epoch) <= stake_sum(entries),
    decreases entries.len(),
{
    if entries.len() > 0 {
        lemma_unlocked_stake_bounded(entries.drop_last(), staker, epoch);
    }
}

proof fn lemma_stake_sum_prefix(entries: Seq<StakeEntry>, n: int)
    requires
        0 <= n <= entries.len(),
    ensures
        stake_sum(entries.subrange(0, n)) <= stake_sum(entries),
    decreases entries.len() - n,
{
    if n == entries.len() {
        assert(entries.subrange(0, n) =~= entries);
    } else {
        lemma_stake_sum_prefix(entries, n + 1);
        assert(entries.subrange(0, n + 1).drop_last() =~= entries.subrange(0, n));
    }
}

/// Taking `amount` out lowers the sum of the entries by `amount`, or by all
/// that is unlocked where that is less.
proof fn lemma_unstake_sum(entries: Seq<StakeEntry>, staker: Seq<u8>, epoch: u64, amount: nat)
    ensures
        stake_sum(stakes_after_unstake(entries, staker, epoch, amount)) + smaller(
            amount,
            unlocked_stake(entries, staker, epoch),
        ) == stake_sum(entries),
    decreases entries.len(),
{
    if entries.len() > 0 {
        lemma_unstake_sum(entries.drop_last(), staker, epoch, amount);
        let rest = stakes_after_unstake(entries.drop_last(), staker, epoch, amount);
        let last = entries.last();
        match left_after(
            last.amount,
            stake_matches(last, staker, epoch),
            unlocked_stake(entries.drop_last(), staker, epoch),
            amount,
        ) {
            Some(left) => {
                let pushed = rest.push(StakeEntry { amount: left, ..last });
                assert(pushed.drop_last() =~= rest);
            },
            None => {},
        }
    }
}

/// The sum of the amounts of a sequence of delegations.
pub open spec fn delegation_sum(entries: Seq<DelegationEntry>) -> nat
    decreases entries.len(),
{
    if entries.len() == 0 {
        0
    } else {
        delegation_sum(entries.drop_last()) + entries.last().amount as nat
    }
}

/// Whether a delegation is from `delegator` to `validator`.
pub open spec fn delegation_between(
    entry: DelegationEntry,
    delegator: Seq<u8>,
    validator: Seq<u8>,
) -> bool {
    entry.delegator@ == delegator && entry.validator@ == validator
}

/// Whether a delegation is from `delegator` to `validator` and unlocked in `epoch`.
pub open spec fn delegation_matches(
    entry: DelegationEntry,
    delegator: Seq<u8>,
    validator: Seq<u8>,
    epoch: u64,
) -> bool {
    delegation_between(entry, delegator, validator) && is_unlocked_at(entry.unlock_epoch, epoch)
}

/// Whether `delegator` has any delegation to `validator`.
pub open spec fn has_delegation(
    entries: Seq<DelegationEntry>,
    delegator: Seq<u8>,
    validator: Seq<u8>,
) -> bool {
    exists|i: int|
        0 <= i < entries.len() && delegation_between(#[trigger] entries[i], delegator, validator)
}

/// The sum of the unlocked amounts that `delegator` has delegated to `validator`.
pub open spec fn unlocked_delegation(
    entries: Seq<DelegationEntry>,
    delegator: Seq<u8>,
    validator: Seq<u8>,
    epoch: u64,
) -> nat
    decreases entries.len(),
{
    if entries.len() == 0 {
        0
    } else {
        unlocked_delegation(entries.drop_last(), delegator, validator, epoch) + (
        if delegation_matches(entries.last(), delegator, validator, epoch) {
            entries.last().amount as nat
        } else {
            0nat
        })
    }
}

/// The delegations after `amount` was taken from the unlocked delegations
/// of `delegator` to `validator`, the earliest first.
pub open spec fn delegations_after_undelegate(
    entries: Seq<DelegationEntry>,
    delegator: Seq<u8>,
    validator: Seq<u8>,
    epoch: u64,
    amount: nat,
) -> Seq<DelegationEntry>
    decreases entries.len(),
{
    if entries.len() == 0 {
        Seq::<DelegationEntry>::empty()
    } else {
        let rest = delegations_after_undelegate(
            entries.drop_last(),
            delegator,
            validator,
            epoch,
            amount,
        );
        let last = entries.last();
        match left_after(
            last.amount,
            delegation_matches(last, delegator, validator, epoch),
            unlocked_delegation(entries.drop_last(), delegator, validator, epoch),
            amount,
        ) {
            Some(left) => rest.push(DelegationEntry { amount: left, ..last }),
            None => rest,
        }
    }
}

proof fn lemma_unlocked_delegation_bounded(
    entries: Seq<DelegationEntry>,
    delegator: Seq<u8>,
    validator: Seq<u8>,
    epoch: u64,
)
    ensures
        unlocked_delegation(entries, delegator, validator, epoch) <= delegation_sum(entries),
    decreases entries.len(),
{
    if entries.len() > 0 {
        lemma_unlocked_delegation_bounded(entries.drop_last(), delegator, validator, epoch);
    }
}

proof fn lemma_delegation_sum_prefix(entries: Seq<DelegationEntry>, n: int)
    requires
        0 <= n <= entries.len(),
    ensures
        delegation_sum(entries.subrange(0, n)) <= delegation_sum(entries),
    decreases entries.len() - n,
{
    if n == entries.len() {
        assert(entries.subrange(0, n) =~= entries);
    } else {
        lemma_delegation_sum_prefix(entries, n + 1);
        assert(entries.subrange(0, n + 1).drop_last() =~= entries.subrange(0, n));
    }
}

proof fn lemma_undelegate_sum(
    entries: Seq<DelegationEntry>,
    delegator: Seq<u8>,
    validator: Seq<u8>,
    epoch: u64,
    amount: nat,
)
    ensures
        delegation_sum(delegations_after_undelegate(entries, delegator, validator, epoch, amount))
            + smaller(amount, unlocked_delegation(entries, delegator, validator, epoch))
            == delegation_sum(entries),
    decreases entries.len(),
{
    if entries.len() > 0 {
        lemma_undelegate_sum(entries.drop_last(), delegator, validator, epoch, amount);
        let rest = delegations_after_undelegate(
            entries.drop_last(),
            delegator,
            validator,
            epoch,
            amount,
        );
        let last = entries.last();
        match left_after(
            last.amount,
            delegation_matches(last, delegator, validator, epoch),
            unlocked_delegation(entries.drop_last(), delegator, validator, epoch),
            amount,
        ) {
            Some(left) => {
                let pushed = rest.push(DelegationEntry { amount: left, ..last });
                assert(pushed.drop_last() =~= rest);
            },
            None => {},
        }
    }
}

/// The voting power of one position: its amount times the vote weight of its
/// tier, in thousandths, as far as it fits in 64 bits.
pub open spec fn position_power(amount: u64, tier: LockTier) -> nat {
    ((amount as nat * tier.spec_vote_weight_bps() as nat / 1000) % 0x1_0000_0000_0000_0000) as nat
}

/// The voting power of the own stakes of `key`.
pub open spec fn stake_power(entries: Seq<StakeEntry>, key: Seq<u8>) -> nat
    decreases entries.len(),
{
    if entries.len() == 0 {
        0
    } else {
        stake_power(entries.drop_last(), key) + (if entries.last().staker@ == key {
            position_power(entries.last().amount, entries.last().lock_tier)
        } else {
            0nat
        })
    }
}

/// The voting power delegated to the validator `key`, each delegation
/// weighed by its own tier.
pub open spec fn delegated_power(entries: Seq<DelegationEntry>, key: Seq<u8>) -> nat
    decreases entries.len(),
{
    if entries.len() == 0 {
        0
    } else {
        delegated_power(entries.drop_last(), key) + (if entries.last().validator@ == key {
            position_power(entries.last().amount, entries.last().lock_tier)
        } else {
            0nat
        })
    }
}

/// The epoch reward of all the stakes of `staker`.
pub open spec fn staker_reward(entries: Seq<StakeEntry>, staker: Seq<u8>) -> nat
    decreases entries.len(),
{
    if entries.len() == 0 {
        0
    } else {
        staker_reward(entries.drop_last(), staker) + (if entries.last().staker@ == staker {
            reward_of(entries.last().amount, entries.last().lock_tier, 1)
        } else {
            0nat
        })
    }
}

/// The epoch reward of all the delegations of `delegator` to `validator`.
pub open spec fn pair_reward(
    entries: Seq<DelegationEntry>,
    delegator: Seq<u8>,
    validator: Seq<u8>,
) -> nat
    decreases entries.len(),
{
    if entries.len() == 0 {
        0
    } else {
        pair_reward(entries.drop_last(), delegator, validator) + (if delegation_between(
            entries.last(),
            delegator,
            validator,
        ) {
            reward_of(entries.last().amount, entries.last().lock_tier, 1)
        } else {
            0nat
        })
    }
}

/// Whether the entry at `i` is the first of its staker.
pub open spec fn first_of_staker(entries: Seq<StakeEntry>, i: int) -> bool {
    forall|j: int| 0 <= j < i ==> (#[trigger] entries[j]).staker@ != entries[i].staker@
}

/// Whether the delegation at `i` is the first from its delegator to its validator.
pub open spec fn first_of_pair(entries: Seq<DelegationEntry>, i: int) -> bool {
    forall|j: int|
        0 <= j < i ==> !delegation_between(
            #[trigger] entries[j],
            entries[i].delegator@,
            entries[i].validator@,
        )
}

/// The reward rows of the stakers among the first `n` entries: one row for
/// each staker with a reward above zero, in the order of their first entries.
pub open spec fn stake_rows(entries: Seq<StakeEntry>, n: int) -> Seq<(PublicKey, u64)>
    decreases n,
{
    if n <= 0 {
        Seq::<(PublicKey, u64)>::empty()
    } else {
        let rows = stake_rows(entries, n - 1);
        let entry = entries[n - 1];
        if first_of_staker(entries, n - 1) && staker_reward(entries, entry.staker@) > 0 {
            rows.push((entry.staker, staker_reward(entries, entry.staker@) as u64))
        } else {
            rows
        }
    }
}

/// The reward rows of the delegations among the first `n`: one row, under
/// the delegator's key, for each pair of delegator and validator with a
/// reward above zero, in the order of their first delegations.
pub open spec fn delegation_rows(entries: Seq<DelegationEntry>, n: int) -> Seq<(PublicKey, u64)>
    decreases n,
{
    if n <= 0 {
        Seq::<(PublicKey, u64)>::empty()
    } else {
        let rows = delegation_rows(entries, n - 1);
        let entry = entries[n - 1];
        if first_of_pair(entries, n - 1) && pair_reward(
            entries,
            entry.delegator@,
            entry.validator@,
        ) > 0 {
            rows.push(
                (
                    entry.delegator,
                    pair_reward(entries, entry.delegator@, entry.validator@) as u64,
                ),
            )
        } else {
            rows
        }
    }
}

proof fn lemma_staker_reward_bounded(entries: Seq<StakeEntry>, staker: Seq<u8>)
    ensures
        staker_reward(entries, staker) <= stake_sum(entries),
    decreases entries.len(),
{
    if entries.len() > 0 {
        lemma_staker_reward_bounded(entries.drop_last(), staker);
        lemma_epoch_reward_bounded(entries.last().amount, entries.last().lock_tier);
    }
}

proof fn lemma_pair_reward_bounded(
    entries: Seq<DelegationEntry>,
    delegator: Seq<u8>,
    validator: Seq<u8>,
)
    ensures
        pair_reward(entries, delegator, validator) <= delegation_sum(entries),
    decreases entries.len(),
{
    if entries.len() > 0 {
        lemma_pair_reward_bounded(entries.drop_last(), delegator, validator);
        lemma_epoch_reward_bounded(entries.last().amount, entries.last().lock_tier);
    }
}

/// The reward of one epoch is no more than the amount.
pub proof fn lemma_epoch_reward_bounded(amount: u64, tier: LockTier)
    ensures
        reward_of(amount, tier, 1) <= amount,
{
    let factor = 500 * tier.spec_rate_pct() as nat;
    assert(amount as nat * 500 * tier.spec_rate_pct() as nat * 1 == amount as nat * factor)
        by (nonlinear_arith)
        requires
            factor == 500 * tier.spec_rate_pct() as nat,
    ;
    assert((amount as nat * factor) / 365_000_000 <= amount) by (nonlinear_arith)
        requires
            factor <= 60000,
    ;
}

/// The staking pool.
#[derive(Debug, Clone)]
pub struct StakingPool {
    state: StakingState,
}

impl StakingPool {
    /// The state of the pool.
    pub closed spec fn state(self) -> StakingState {
        self.state
    }

    /// The stake entries, in the order in which they were made.
    pub open spec fn stakes(self) -> Seq<StakeEntry> {
        self.state().entries@
    }

    /// The delegations, in the order in which they were made.
    pub open spec fn delegations(self) -> Seq<DelegationEntry> {
        self.state().delegations@
    }

    /// The total is the sum of all staked and delegated amounts.
    pub open spec fn wf(self) -> bool {
        self.state().total_staked == stake_sum(self.stakes()) + delegation_sum(self.delegations())
    }

    /// The voting power of `key`: that of its own stakes and of what is
    /// delegated to it, at most the largest 64-bit number.
    pub open spec fn voting_power(self, key: Seq<u8>) -> nat {
        smaller(
            stake_power(self.stakes(), key) + delegated_power(self.delegations(), key),
            u64::MAX as nat,
        )
    }

    /// An empty pool in epoch 0.
    pub fn new() -> (pool: Self)
        ensures
            pool.wf(),
            pool.stakes().len() == 0,
            pool.delegations().len() == 0,
            pool.state().total_staked == 0,
            pool.state().current_epoch == 0,
    {
        StakingPool {
            state: StakingState {
                total_staked: 0,
                entries: Vec::new(),
                delegations: Vec::new(),
                current_epoch: 0,
            },
        }
    }

    /// Moves the pool to `epoch`.
    pub fn set_epoch(&mut self, epoch: u64)
        ensures
            final(self).state().current_epoch == epoch,
            final(self).state().total_staked == old(self).state().total_staked,
            final(self).stakes() == old(self).stakes(),
            final(self).delegations() == old(self).delegations(),
            old(self).wf() ==> final(self).wf(),
    {
        self.state.current_epoch = epoch;
    }

    /// The current epoch.
    pub fn current_epoch(&self) -> (epoch: u64)
        ensures
            epoch == self.state().current_epoch,
    {
        self.state.current_epoch
    }

    /// The sum of all staked and delegated amounts.
    pub fn total_staked(&self) -> (total: u64)
        ensures
            total == self.state().total_staked,
    {
        self.state.total_staked
    }

    /// Stakes `amount` for `staker` in `tier`. Fails, and changes nothing,
    /// for amount zero and where the total would not fit in 64 bits.
    pub fn stake(&mut self, staker: PublicKey, amount: u64, tier: LockTier) -> (r: Result<
        (),
        StakingError,
    >)
        requires
            old(self).wf(),
            tier.spec_lock_duration_epochs() matches Some(duration) ==> old(
                self,
            ).state().current_epoch + duration <= u64::MAX,
        ensures
            final(self).wf(),
            final(self).state().current_epoch == old(self).state().current_epoch,
            final(self).delegations() == old(self).delegations(),
            amount == 0 ==> r == Err::<(), StakingError>(StakingError::ZeroAmount),
            amount > 0 && old(self).state().total_staked + amount > u64::MAX ==> r == Err::<
                (),
                StakingError,
            >(StakingError::Overflow),
            r is Err ==> final(self).state() == old(self).state(),
            amount > 0 && old(self).state().total_staked + amount <= u64::MAX ==> {
                &&& r is Ok
                &&& final(self).state().total_staked == old(self).state().total_staked + amount
                &&& final(self).stakes() == old(self).stakes().push(
                    StakeEntry {
                        staker,
                        amount,
                        lock_tier: tier,
                        start_epoch: old(self).state().current_epoch,
                        unlock_epoch: unlock_epoch_for(tier, old(self).state().current_epoch),
                    },
                )
            },
    {
        if amount == 0 {
            return Err(StakingError::ZeroAmount);
        }
        let total = match self.state.total_staked.checked_add(amount) {
            Some(total) => total,
            None => {
                return Err(StakingError::Overflow);
            },
        };
        let unlock_epoch = match tier.lock_duration_epochs() {
            Some(duration) => Some(self.state.current_epoch + duration),
            None => None,
        };
        let entry = StakeEntry {
            staker,
            amount,
            lock_tier: tier,
            start_epoch: self.state.current_epoch,
            unlock_epoch,
        };
        let ghost before = self.state.entries@;
        self.state.entries.push(entry);
        self.state.total_staked = total;
        proof {
            assert(self.state.entries@.drop_last() =~= before);
        }
        Ok(())
    }

    /// Takes `amount` out of the unlocked stakes of `staker`, the earliest
    /// first. Fails, and changes nothing, for amount zero, for a staker
    /// without stakes, and where less than `amount` is unlocked.
    pub fn unstake(&mut self, staker: PublicKey, amount: u64) -> (r: Result<(), StakingError>)
        requires
            old(self).wf(),
        ensures
            final(self).wf(),
            final(self).state().current_epoch == old(self).state().current_epoch,
            final(self).delegations() == old(self).delegations(),
            r == (if amount == 0 {
                Err::<(), StakingError>(StakingError::ZeroAmount)
            } else if !has_stake(old(self).stakes(), staker@) {
                Err(StakingError::NoStakeFound)
            } else if unlocked_stake(old(self).stakes(), staker@, old(self).state().current_epoch)
                < amount {
                Err(
                    StakingError::InsufficientBalance {
                        have: unlocked_stake(
                            old(self).stakes(),
                            staker@,
                            old(self).state().current_epoch,
                        ) as u64,
                        need: amount,
                    },
                )
            } else {
                Ok(())
            }),
            r is Err ==> final(self).state() == old(self).state(),
            r is Ok ==> {
                &&& final(self).state().total_staked == old(self).state().total_staked - amount
                &&& final(self).stakes() == stakes_after_unstake(
                    old(self).stakes(),
                    staker@,
                    old(self).state().current_epoch,
                    amount as nat,
                )
            },
    {
        if amount == 0 {
            return Err(StakingError::ZeroAmount);
        }
        let epoch = self.state.current_epoch;
        let ghost all = self.state.entries@;
        let count: usize = self.state.entries.len();
        let mut found = false;
        let mut unlocked_total: u64 = 0;
        let mut i: usize = 0;
        proof {
            assert(all.subrange(0, 0) =~= Seq::<StakeEntry>::empty());
        }
        while i < count
            invariant
                i <= count,
                count == all.len(),
                all == self.state.entries@,
                stake_sum(all) <= u64::MAX,
                unlocked_total == unlocked_stake(all.subrange(0, i as int), staker@, epoch),
                found == has_stake(all.subrange(0, i as int), staker@),
            decreases count - i,
        {
            let entry = &self.state.entries[i];
            proof {
                let next = all.subrange(0, i + 1);
                let prev = all.subrange(0, i as int);
                assert(next.drop_last() =~= prev);
                lemma_unlocked_stake_bounded(next, staker@, epoch);
                lemma_stake_sum_prefix(all, i + 1);
                if has_stake(prev, staker@) {
                    let w = choose|w: int| 0 <= w < prev.len() && (#[trigger] prev[w]).staker@
                        == staker@;
                    assert(next[w].staker@ == staker@);
                }
                if has_stake(next, staker@) && entry.staker@ != staker@ {
                    let w = choose|w: int| 0 <= w < next.len() && (#[trigger] next[w]).staker@
                        == staker@;
                    assert(prev[w].staker@ == staker@);
                }
                if entry.staker@ == staker@ {
                    assert(next[i as int].staker@ == staker@);
                }
            }
            if keys_equal(&entry.staker, &staker) {
                found = true;
                if is_unlocked(entry.unlock_epoch, epoch) {
                    unlocked_total = unlocked_total + entry.amount;
                }
            }
            i += 1;
        }
        proof {
            assert(all.subrange(0, count as int) =~= all);
        }
        if !found {
            return Err(StakingError::NoStakeFound);
        }
        if unlocked_total < amount {
            return Err(StakingError::InsufficientBalance { have: unlocked_total, need: amount });
        }
        let mut kept: Vec<StakeEntry> = Vec::new();
        let mut before: u64 = 0;
        let mut k: usize = 0;
        while k < count
            invariant
                k <= count,
                count == all.len(),
                all == self.state.entries@,
                stake_sum(all) <= u64::MAX,
                before == unlocked_stake(all.subrange(0, k as int), staker@, epoch),
                kept@ == stakes_after_unstake(
                    all.subrange(0, k as int),
                    staker@,
                    epoch,
                    amount as nat,
                ),
            decreases count - k,
        {
            let entry = self.state.entries[k];
            proof {
                let next = all.subrange(0, k + 1);
                assert(next.drop_last() =~= all.subrange(0, k as int));
                lemma_unlocked_stake_bounded(next, staker@, epoch);
                lemma_stake_sum_prefix(all, k + 1);
            }
            let matches = keys_equal(&entry.staker, &staker) && is_unlocked(
                entry.unlock_epoch,
                epoch,
            );
            if !matches || before >= amount {
                kept.push(entry);
            } else if entry.amount <= amount - before {
            } else {
                kept.push(
                    StakeEntry {
                        staker: entry.staker,
                        amount: entry.amount - (amount - before),
                        lock_tier: entry.lock_tier,
                        start_epoch: entry.start_epoch,
                        unlock_epoch: entry.unlock_epoch,
                    },
                );
            }
            if matches {
                before = before + entry.amount;
            }
            k += 1;
        }
        proof {
            assert(all.subrange(0, count as int) =~= all);
            lemma_unstake_sum(all, staker@, epoch, amount as nat);
        }
        self.state.entries = kept;
        self.state.total_staked = self.state.total_staked - amount;
        Ok(())
    }
    /// Delegates `amount` from `delegator` to `validator` in `tier`. Fails,
    /// and changes nothing, for amount zero and where the total would not
    /// fit in 64 bits.
    pub fn delegate(
        &mut self,
        delegator: PublicKey,
        validator: PublicKey,
        amount: u64,
        tier: LockTier,
    ) -> (r: Result<(), StakingError>)
        requires
            old(self).wf(),
            tier.spec_lock_duration_epochs() matches Some(duration) ==> old(
                self,
            ).state().current_epoch + duration <= u64::MAX,
        ensures
            final(self).wf(),
            final(self).state().current_epoch == old(self).state().current_epoch,
            final(self).stakes() == old(self).stakes(),
            amount == 0 ==> r == Err::<(), StakingError>(StakingError::ZeroAmount),
            amount > 0 && old(self).state().total_staked + amount > u64::MAX ==> r == Err::<
                (),
                StakingError,
            >(StakingError::Overflow),
            r is Err ==> final(self).state() == old(self).state(),
            amount > 0 && old(self).state().total_staked + amount <= u64::MAX ==> {
                &&& r is Ok
                &&& final(self).state().total_staked == old(self).state().total_staked + amount
                &&& final(self).delegations() == old(self).delegations().push(
                    DelegationEntry {
                        delegator,
                        validator,
                        amount,
                        lock_tier: tier,
                        start_epoch: old(self).state().current_epoch,
                        unlock_epoch: unlock_epoch_for(tier, old(self).state().current_epoch),
                    },
                )
            },
    {
        if amount == 0 {
            return Err(StakingError::ZeroAmount);
        }
        let total = match self.state.total_staked.checked_add(amount) {
            Some(total) => total,
            None => {
                return Err(StakingError::Overflow);
            },
        };
        let unlock_epoch = match tier.lock_duration_epochs() {
            Some(duration) => Some(self.state.current_epoch + duration),
            None => None,
        };
        let entry = DelegationEntry {
            delegator,
            validator,
            amount,
            lock_tier: tier,
            start_epoch: self.state.current_epoch,
            unlock_epoch,
        };
        let ghost before = self.state.delegations@;
        self.state.delegations.push(entry);
        self.state.total_staked = total;
        proof {
            assert(self.state.delegations@.drop_last() =~= before);
        }
        Ok(())
    }

    /// Takes `amount` back from the unlocked delegations of `delegator` to
    /// `validator`, the earliest first. Fails, and changes nothing, for
    /// amount zero, where there is no such delegation, and where less than
    /// `amount` is unlocked.
    pub fn undelegate(&mut self, delegator: PublicKey, validator: PublicKey, amount: u64) -> (r:
        Result<(), StakingError>)
        requires
            old(self).wf(),
        ensures
            final(self).wf(),
            final(self).state().current_epoch == old(self).state().current_epoch,
            final(self).stakes() == old(self).stakes(),
            r == (if amount == 0 {
                Err::<(), StakingError>(StakingError::ZeroAmount)
            } else if !has_delegation(old(self).delegations(), delegator@, validator@) {
                Err(StakingError::NoDelegationFound)
            } else if unlocked_delegation(
                old(self).delegations(),
                delegator@,
                validator@,
                old(self).state().current_epoch,
            ) < amount {
                Err(
                    StakingError::InsufficientBalance {
                        have: unlocked_delegation(
                            old(self).delegations(),
                            delegator@,
                            validator@,
                            old(self).state().current_epoch,
                        ) as u64,
                        need: amount,
                    },
                )
            } else {
                Ok(())
            }),
            r is Err ==> final(self).state() == old(self).state(),
            r is Ok ==> {
                &&& final(self).state().total_staked == old(self).state().total_staked - amount
                &&& final(self).delegations() == delegations_after_undelegate(
                    old(self).delegations(),
                    delegator@,
                    validator@,
                    old(self).state().current_epoch,
                    amount as nat,
                )
            },
    {
        if amount == 0 {
            return Err(StakingError::ZeroAmount);
        }
        let epoch = self.state.current_epoch;
        let ghost all = self.state.delegations@;
        let count: usize = self.state.delegations.len();
        let mut found = false;
        let mut unlocked_total: u64 = 0;
        let mut i: usize = 0;
        proof {
            assert(all.subrange(0, 0) =~= Seq::<DelegationEntry>::empty());
        }
        while i < count
            invariant
                i <= count,
                count == all.len(),
                all == self.state.delegations@,
                delegation_sum(all) <= u64::MAX,
                unlocked_total == unlocked_delegation(
                    all.subrange(0, i as int),
                    delegator@,
                    validator@,
                    epoch,
                ),
                found == has_delegation(all.subrange(0, i as int), delegator@, validator@),
            decreases count - i,
        {
            let entry = &self.state.delegations[i];
            proof {
                let next = all.subrange(0, i + 1);
                let prev = all.subrange(0, i as int);
                assert(next.drop_last() =~= prev);
                lemma_unlocked_delegation_bounded(next, delegator@, validator@, epoch);
                lemma_delegation_sum_prefix(all, i + 1);
                if has_delegation(prev, delegator@, validator@) {
                    let w = choose|w: int|
                        0 <= w < prev.len() && delegation_between(
                            #[trigger] prev[w],
                            delegator@,
                            validator@,
                        );
                    assert(delegation_between(next[w], delegator@, validator@));
                }
                if has_delegation(next, delegator@, validator@) && !delegation_between(
                    *entry,
                    delegator@,
                    validator@,
                ) {
                    let w = choose|w: int|
                        0 <= w < next.len() && delegation_between(
                            #[trigger] next[w],
                            delegator@,
                            validator@,
                        );
                    assert(delegation_between(prev[w], delegator@, validator@));
                }
                if delegation_between(*entry, delegator@, validator@) {
                    assert(delegation_between(next[i as int], delegator@, validator@));
                }
            }
            if keys_equal(&entry.delegator, &delegator) && keys_equal(
                &entry.validator,
                &validator,
            ) {
                found = true;
                if is_unlocked(entry.unlock_epoch, epoch) {
                    unlocked_total = unlocked_total + entry.amount;
                }
            }
            i += 1;
        }
        proof {
            assert(all.subrange(0, count as int) =~= all);
        }
        if !found {
            return Err(StakingError::NoDelegationFound);
        }
        if unlocked_total < amount {
            return Err(StakingError::InsufficientBalance { have: unlocked_total, need: amount });
        }
        let mut kept: Vec<DelegationEntry> = Vec::new();
        let mut before: u64 = 0;
        let mut k: usize = 0;
        while k < count
            invariant
                k <= count,
                count == all.len(),
                all == self.state.delegations@,
                delegation_sum(all) <= u64::MAX,
                before == unlocked_delegation(
                    all.subrange(0, k as int),
                    delegator@,
                    validator@,
                    epoch,
                ),
                kept@ == delegations_after_undelegate(
                    all.subrange(0, k as int),
                    delegator@,
                    validator@,
                    epoch,
                    amount as nat,
                ),
            decreases count - k,
        {
            let entry = self.state.delegations[k];
            proof {
                let next = all.subrange(0, k + 1);
                assert(next.drop_last() =~= all.subrange(0, k as int));
                lemma_unlocked_delegation_bounded(next, delegator@, validator@, epoch);
                lemma_delegation_sum_prefix(all, k + 1);
            }
            let matches = keys_equal(&entry.delegator, &delegator) && keys_equal(
                &entry.validator,
                &validator,
            ) && is_unlocked(entry.unlock_epoch, epoch);
            if !matches || before >= amount {
                kept.push(entry);
            } else if entry.amount <= amount - before {
            } else {
                kept.push(
                    DelegationEntry {
                        delegator: entry.delegator,
                        validator: entry.validator,
                        amount: entry.amount - (amount - before),
                        lock_tier: entry.lock_tier,
                        start_epoch: entry.start_epoch,
                        unlock_epoch: entry.unlock_epoch,
                    },
                );
            }
            if matches {
                before = before + entry.amount;
            }
            k += 1;
        }
        proof {
            assert(all.subrange(0, count as int) =~= all);
            lemma_undelegate_sum(all, delegator@, validator@, epoch, amount as nat);
        }
        self.state.delegations = kept;
        self.state.total_staked = self.state.total_staked - amount;
        Ok(())
    }

    /// The epoch reward of all the stakes of `staker`.
    fn reward_of_staker(&self, staker: &PublicKey) -> (total: u64)
        requires
            self.wf(),
        ensures
            total == staker_reward(self.stakes(), staker@),
    {
        let ghost all = self.state.entries@;
        let mut total: u64 = 0;
        let mut i: usize = 0;
        proof {
            assert(all.subrange(0, 0) =~= Seq::<StakeEntry>::empty());
        }
        while i < self.state.entries.len()
            invariant
                i <= all.len(),
                all == self.state.entries@,
                stake_sum(all) <= u64::MAX,
                total == staker_reward(all.subrange(0, i as int), staker@),
            decreases all.len() - i,
        {
            let entry = &self.state.entries[i];
            proof {
                let next = all.subrange(0, i + 1);
                assert(next.drop_last() =~= all.subrange(0, i as int));
                lemma_staker_reward_bounded(next, staker@);
                lemma_stake_sum_prefix(all, i + 1);
            }
            if keys_equal(&entry.staker, staker) {
                total = total + calculate_epoch_reward(entry.amount, &entry.lock_tier);
            }
            i += 1;
        }
        proof {
            assert(all.subrange(0, all.len() as int) =~= all);
        }
        total
    }

    /// The epoch reward of all the delegations of `delegator` to `validator`.
    fn reward_of_pair(&self, delegator: &PublicKey, validator: &PublicKey) -> (total: u64)
        requires
            self.wf(),
        ensures
            total == pair_reward(self.delegations(), delegator@, validator@),
    {
        let ghost all = self.state.delegations@;
        let mut total: u64 = 0;
        let mut i: usize = 0;
        proof {
            assert(all.subrange(0, 0) =~= Seq::<DelegationEntry>::empty());
        }
        while i < self.state.delegations.len()
            invariant
                i <= all.len(),
                all == self.state.delegations@,
                delegation_sum(all) <= u64::MAX,
                total == pair_reward(all.subrange(0, i as int), delegator@, validator@),
            decreases all.len() - i,
        {
            let entry = &self.state.delegations[i];
            proof {
                let next = all.subrange(0, i + 1);
                assert(next.drop_last() =~= all.subrange(0, i as int));
                lemma_pair_reward_bounded(next, delegator@, validator@);
                lemma_delegation_sum_prefix(all, i + 1);
            }
            if keys_equal(&entry.delegator, delegator) && keys_equal(&entry.validator, validator) {
                total = total + calculate_epoch_reward(entry.amount, &entry.lock_tier);
            }
            i += 1;
        }
        proof {
            assert(all.subrange(0, all.len() as int) =~= all);
        }
        total
    }

    /// The rewards of one epoch: a row for each staker, then a row for each
    /// pair of delegator and validator, under the delegator's key; rows with
    /// reward zero are left out. The delegator earns the reward of a
    /// delegation, not the validator.
    pub fn distribute_epoch_rewards(&self) -> (rewards: Vec<(PublicKey, u64)>)
        requires
            self.wf(),
        ensures
            rewards@ == stake_rows(self.stakes(), self.stakes().len() as int) + delegation_rows(
                self.delegations(),
                self.delegations().len() as int,
            ),
    {
        let mut rewards: Vec<(PublicKey, u64)> = Vec::new();
        let ghost stakes = self.state.entries@;
        let mut i: usize = 0;
        while i < self.state.entries.len()
            invariant
                self.wf(),
                i <= stakes.len(),
                stakes == self.state.entries@,
                rewards@ == stake_rows(stakes, i as int),
            decreases stakes.len() - i,
        {
            let staker = self.state.entries[i].staker;
            let mut first = true;
            let mut j: usize = 0;
            while j < i
                invariant
                    j <= i < stakes.len(),
                    stakes == self.state.entries@,
                    staker == stakes[i as int].staker,
                    first == (forall|n: int|
                        0 <= n < j ==> (#[trigger] stakes[n]).staker@ != staker@),
                decreases i - j,
            {
                if keys_equal(&self.state.entries[j].staker, &staker) {
                    first = false;
                }
                j += 1;
            }
            if first {
                let total = self.reward_of_staker(&staker);
                if total > 0 {
                    rewards.push((staker, total));
                }
            }
            i += 1;
        }
        let ghost rows = rewards@;
        let ghost delegations = self.state.delegations@;
        let mut k: usize = 0;
        while k < self.state.delegations.len()
            invariant
                self.wf(),
                k <= delegations.len(),
                delegations == self.state.delegations@,
                rewards@ == rows + delegation_rows(delegations, k as int),
            decreases delegations.len() - k,
        {
            let delegator = self.state.delegations[k].delegator;
            let validator = self.state.delegations[k].validator;
            let mut first = true;
            let mut j: usize = 0;
            while j < k
                invariant
                    j <= k < delegations.len(),
                    delegations == self.state.delegations@,
                    delegator == delegations[k as int].delegator,
                    validator == delegations[k as int].validator,
                    first == (forall|n: int|
                        0 <= n < j ==> !delegation_between(
                            #[trigger] delegations[n],
                            delegator@,
                            validator@,
                        )),
                decreases k - j,
            {
                if keys_equal(&self.state.delegations[j].delegator, &delegator) && keys_equal(
                    &self.state.delegations[j].validator,
                    &validator,
                ) {
                    first = false;
                }
                j += 1;
            }
            let ghost so_far = rewards@;
            if first {
                let total = self.reward_of_pair(&delegator, &validator);
                if total > 0 {
                    rewards.push((delegator, total));
                }
            }
            proof {
                assert(rewards@ =~= rows + delegation_rows(delegations, k + 1));
            }
            k += 1;
        }
        rewards
    }

    /// The voting power of `pubkey`: for each of its own stakes and each
    /// delegation to it, the amount times the vote weight of the tier in
    /// thousandths; the sum is capped at the largest 64-bit number.
    pub fn get_voting_power(&self, pubkey: &PublicKey) -> (power: u64)
        ensures
            power == self.voting_power(pubkey@),
    {
        let ghost stakes = self.state.entries@;
        let ghost delegations = self.state.delegations@;
        let mut power: u64 = 0;
        let mut i: usize = 0;
        proof {
            assert(stakes.subrange(0, 0) =~= Seq::<StakeEntry>::empty());
        }
        while i < self.state.entries.len()
            invariant
                i <= stakes.len(),
                stakes == self.state.entries@,
                power == smaller(stake_power(stakes.subrange(0, i as int), pubkey@), u64::MAX as nat),
            decreases stakes.len() - i,
        {
            let entry = &self.state.entries[i];
            proof {
                assert(stakes.subrange(0, i + 1).drop_last() =~= stakes.subrange(0, i as int));
            }
            if keys_equal(&entry.staker, pubkey) {
                power = power.saturating_add(position_power_of(entry.amount, &entry.lock_tier));
            }
            i += 1;
        }
        proof {
            assert(stakes.subrange(0, stakes.len() as int) =~= stakes);
            assert(delegations.subrange(0, 0) =~= Seq::<DelegationEntry>::empty());
        }
        let mut k: usize = 0;
        while k < self.state.delegations.len()
            invariant
                k <= delegations.len(),
                delegations == self.state.delegations@,
                stakes == self.state.entries@,
                power == smaller(
                    stake_power(stakes, pubkey@) + delegated_power(
                        delegations.subrange(0, k as int),
                        pubkey@,
                    ),
                    u64::MAX as nat,
                ),
            decreases delegations.len() - k,
        {
            let entry = &self.state.delegations[k];
            proof {
                assert(delegations.subrange(0, k + 1).drop_last() =~= delegations.subrange(
                    0,
                    k as int,
                ));
            }
            if keys_equal(&entry.validator, pubkey) {
                power = power.saturating_add(position_power_of(entry.amount, &entry.lock_tier));
            }
            k += 1;
        }
        proof {
            assert(delegations.subrange(0, delegations.len() as int) =~= delegations);
        }
        power
    }
}

/// The voting power of one position.
pub fn position_power_of(amount: u64, tier: &LockTier) -> (power: u64)
    ensures
        power == position_power(amount, *tier),
{
    let weight: u128 = tier.vote_weight_bps() as u128;
    assert((amount as u128) * weight <= 0xffff_ffff_ffff_ffff * 5000) by (nonlinear_arith)
        requires
            weight <= 5000,
            amount <= 0xffff_ffff_ffff_ffff,
    ;
    let scaled: u128 = (amount as u128) * weight / 1000;
    let power: u64 = #[verifier::truncate]
    (scaled as u64);
    assert(power == scaled % 0x1_0000_0000_0000_0000) by (bit_vector)
        requires
            power == scaled as u64,
    ;
    power
}

impl Default for StakingPool {
    fn default() -> (pool: Self)
        ensures
            pool.wf(),
            pool.stakes().len() == 0,
            pool.delegations().len() == 0,
            pool.state().total_staked == 0,
            pool.state().current_epoch == 0,
    {
        StakingPool::new()
    }
}

/// The entries that an unstake of `staker` in `epoch` cannot touch: those
/// of other stakers, and those that are still locked.
pub open spec fn untouchable_stakes(entries: Seq<StakeEntry>, staker: Seq<u8>, epoch: u64) -> Seq<
    StakeEntry,
>
    decreases entries.len(),
{
    if entries.len() == 0 {
        Seq::<StakeEntry>::empty()
    } else {
        let rest = untouchable_stakes(entries.drop_last(), staker, epoch);
        if stake_matches(entries.last(), staker, epoch) {
            rest
        } else {
            rest.push(entries.last())
        }
    }
}

/// Unstaking leaves the entries of other stakers and the locked entries as
/// they were, in their order.
pub proof fn law_unstake_leaves_others(
    entries: Seq<StakeEntry>,
    staker: Seq<u8>,
    epoch: u64,
    amount: nat,
)
    ensures
        untouchable_stakes(stakes_after_unstake(entries, staker, epoch, amount), staker, epoch)
            == untouchable_stakes(entries, staker, epoch),
    decreases entries.len(),
{
    if entries.len() > 0 {
        law_unstake_leaves_others(entries.drop_last(), staker, epoch, amount);
        let rest = stakes_after_unstake(entries.drop_last(), staker, epoch, amount);
        let last = entries.last();
        match left_after(
            last.amount,
            stake_matches(last, staker, epoch),
            unlocked_stake(entries.drop_last(), staker, epoch),
            amount,
        ) {
            Some(left) => {
                let kept = StakeEntry { amount: left, ..last };
                assert(rest.push(kept).drop_last() =~= rest);
                assert(rest.push(kept).last() == kept);
                assert(stake_matches(kept, staker, epoch) == stake_matches(last, staker, epoch));
                if !stake_matches(last, staker, epoch) {
                    assert(kept == last);
                }
            },
            None => {},
        }
    }
}

} // verus!
