//! Ranking by voting power and the rotation of the active set between epochs.

use vstd::prelude::*;
use crate::keymap::KeyMap;
use crate::keys::{
    KeyOrder,
    PublicKey,
    compare_keys,
    lemma_lex_asymmetric,
    lemma_lex_transitive,
    lex_lt,
};
use crate::staking::pool::StakingPool;
use crate::validator_set::types::{
    ValidatorInfo,
    ValidatorSetError,
    ValidatorSetResult,
    ValidatorStatus,
};

verus! {

/// A validator with the voting power by which it is ranked.
#[derive(Debug, Clone, Copy, PartialEq, Eq)]
pub struct RankedValidator {
    pub pubkey: PublicKey,
    pub effective_stake: u64,
}

/// The ranking order: more voting power comes first, and of two with the
/// same power the one with the smaller public key.
pub open spec fn ranks_before(power_a: nat, key_a: Seq<u8>, power_b: nat, key_b: Seq<u8>) -> bool {
    power_a > power_b || (power_a == power_b && lex_lt(key_a, key_b))
}

/// Whether `a` comes strictly before `b` in the ranking.
pub open spec fn ranked_before(a: RankedValidator, b: RankedValidator) -> bool {
    ranks_before(a.effective_stake as nat, a.pubkey@, b.effective_stake as nat, b.pubkey@)
}

/// Whether no element of `s` comes strictly before an earlier one.
pub open spec fn ranked_in_order(s: Seq<RankedValidator>) -> bool {
    forall|i: int, j: int| 0 <= i < j < s.len() ==> !ranked_before(#[trigger] s[j], #[trigger] s[i])
}

/// The validators of `validators`, each with its voting power in the pool.
pub open spec fn ranked_of(validators: Seq<ValidatorInfo>, pool: StakingPool) -> Seq<
    RankedValidator,
> {
    Seq::new(
        validators.len(),
        |i: int|
            RankedValidator {
                pubkey: validators[i].pubkey,
                effective_stake: pool.voting_power(validators[i].pubkey@) as u64,
            },
    )
}

/// Whether `a` comes strictly before `b` in the ranking.
fn comes_before(a: &RankedValidator, b: &RankedValidator) -> (r: bool)
    ensures
        r == ranked_before(*a, *b),
{
    if a.effective_stake > b.effective_stake {
        true
    } else if a.effective_stake < b.effective_stake {
        false
    } else {
        match compare_keys(&a.pubkey, &b.pubkey) {
            KeyOrder::Less => true,
            _ => false,
        }
    }
}

proof fn lemma_ranked_transitive(a: RankedValidator, b: RankedValidator, c: RankedValidator)
    requires
        ranked_before(a, b),
        !ranked_before(c, b),
    ensures
        !ranked_before(c, a),
{
    if ranked_before(c, a) {
        if c.effective_stake == a.effective_stake && a.effective_stake == b.effective_stake {
            lemma_lex_transitive(c.pubkey@, a.pubkey@, b.pubkey@);
        }
    }
}

/// Sorts validators by voting power, the strongest first; validators with
/// the same power stand in ascending order of their public keys. The result
/// holds the same validators as the input, each as often as there.
pub fn sort_by_stake(validators: &[ValidatorInfo], staking_pool: &StakingPool) -> (ranked: Vec<
    RankedValidator,
>)
    ensures
        ranked_in_order(ranked@),
        ranked@.to_multiset() == ranked_of(validators@, *staking_pool).to_multiset(),
        ranked@.len() == validators@.len(),
{
    let ghost all = ranked_of(validators@, *staking_pool);
    let mut ranked: Vec<RankedValidator> = Vec::new();
    let mut i: usize = 0;
    proof {
        assert(all.subrange(0, 0) =~= Seq::<RankedValidator>::empty());
    }
    while i < validators.len()
        invariant
            i <= validators@.len(),
            all == ranked_of(validators@, *staking_pool),
            ranked_in_order(ranked@),
            ranked@.len() == i,
            ranked@.to_multiset() == all.subrange(0, i as int).to_multiset(),
        decreases validators@.len() - i,
    {
        let validator = &validators[i];
        let item = RankedValidator {
            pubkey: validator.pubkey,
            effective_stake: staking_pool.get_voting_power(&validator.pubkey),
        };
        proof {
            assert(item == all[i as int]);
            assert(all.subrange(0, i + 1) =~= all.subrange(0, i as int).push(item));
        }
        let mut pos: usize = 0;
        while pos < ranked.len() && !comes_before(&item, &ranked[pos])
            invariant
                pos <= ranked@.len(),
                forall|n: int| 0 <= n < pos ==> !ranked_before(item, #[trigger] ranked@[n]),
            decreases ranked@.len() - pos,
        {
            pos += 1;
        }
        let ghost before = ranked@;
        ranked.insert(pos, item);
        proof {
            let after = ranked@;
            vstd::seq_lib::to_multiset_insert(before, pos as int, item);
            vstd::seq_lib::to_multiset_build(all.subrange(0, i as int), item);
            assert(after == before.insert(pos as int, item));
            assert(after.to_multiset() == all.subrange(0, i + 1).to_multiset());
            assert forall|a: int, b: int| 0 <= a < b < after.len() implies !ranked_before(
                #[trigger] after[b],
                #[trigger] after[a],
            ) by {
                if b < pos {
                    assert(!ranked_before(before[b], before[a]));
                } else if b == pos {
                    assert(!ranked_before(item, before[a]));
                } else if a < pos {
                    assert(!ranked_before(before[b - 1], before[a]));
                } else if a == pos {
                    assert(ranked_before(item, before[pos as int]));
                    if b - 1 > pos {
                        assert(!ranked_before(before[b - 1], before[pos as int]));
                    }
                    lemma_ranked_transitive(item, before[pos as int], before[b - 1]);
                } else {
                    assert(!ranked_before(before[b - 1], before[a - 1]));
                }
            }
        }
        i += 1;
    }
    proof {
        assert(all.subrange(0, i as int) =~= all);
    }
    ranked
}

/// What rotation reads of a validator: its key, its status and its voting power.
pub struct Member {
    pub key: Seq<u8>,
    pub status: ValidatorStatus,
    pub power: nat,
}

/// The members that the entries of a validator map stand for, with the
/// voting power that the pool gives to each key.
pub open spec fn members_of(entries: Seq<(PublicKey, ValidatorInfo)>, pool: StakingPool) -> Seq<
    Member,
> {
    Seq::new(
        entries.len(),
        |i: int|
            Member {
                key: entries[i].0@,
                status: entries[i].1.status,
                power: pool.voting_power(entries[i].0@),
            },
    )
}

/// Whether member `a` comes strictly before member `b` in the ranking.
pub open spec fn member_before(a: Member, b: Member) -> bool {
    ranks_before(a.power, a.key, b.power, b.key)
}

/// The position of the first in the ranking among the first `n` members
/// that have the status `status`.
pub open spec fn strongest_upto(m: Seq<Member>, status: ValidatorStatus, n: int) -> Option<int>
    decreases n,
{
    if n <= 0 {
        None
    } else {
        let found = strongest_upto(m, status, n - 1);
        if m[n - 1].status != status {
            found
        } else {
            match found {
                None => Some(n - 1),
                Some(best) => if member_before(m[n - 1], m[best]) {
                    Some(n - 1)
                } else {
                    Some(best)
                },
            }
        }
    }
}

/// The position of the last in the ranking among the first `n` members that
/// have the status `status`.
pub open spec fn weakest_upto(m: Seq<Member>, status: ValidatorStatus, n: int) -> Option<int>
    decreases n,
{
    if n <= 0 {
        None
    } else {
        let found = weakest_upto(m, status, n - 1);
        if m[n - 1].status != status {
            found
        } else {
            match found {
                None => Some(n - 1),
                Some(worst) => if member_before(m[worst], m[n - 1]) {
                    Some(n - 1)
                } else {
                    Some(worst)
                },
            }
        }
    }
}

/// The strongest standby member, the first in the ranking.
pub open spec fn strongest_standby(m: Seq<Member>) -> Option<int> {
    strongest_upto(m, ValidatorStatus::Standby, m.len() as int)
}

/// The weakest active member, the last in the ranking.
pub open spec fn weakest_active(m: Seq<Member>) -> Option<int> {
    weakest_upto(m, ValidatorStatus::Active, m.len() as int)
}

/// `strongest_upto` gives a member of the status that none of that status
/// among the first `n` comes before.
pub proof fn lemma_strongest_upto(m: Seq<Member>, status: ValidatorStatus, n: int)
    requires
        0 <= n <= m.len(),
    ensures
        match strongest_upto(m, status, n) {
            Some(best) => {
                &&& 0 <= best < n
                &&& m[best].status == status
                &&& forall|i: int|
                    0 <= i < n && (#[trigger] m[i]).status == status ==> !member_before(
                        m[i],
                        m[best],
                    )
            },
            None => forall|i: int| 0 <= i < n ==> (#[trigger] m[i]).status != status,
        },
    decreases n,
{
    if n > 0 {
        lemma_strongest_upto(m, status, n - 1);
        match strongest_upto(m, status, n - 1) {
            Some(best) => {
                if m[n - 1].status == status && member_before(m[n - 1], m[best]) {
                    assert forall|i: int|
                        0 <= i < n && (#[trigger] m[i]).status == status implies !member_before(
                        m[i],
                        m[n - 1],
                    ) by {
                        if i < n - 1 && member_before(m[i], m[n - 1]) {
                            lemma_member_before_transitive(m[i], m[n - 1], m[best]);
                        }
                        if i == n - 1 && member_before(m[i], m[n - 1]) {
                            lemma_member_before_irreflexive(m[i]);
                        }
                    }
                }
            },
            None => {
                if m[n - 1].status == status {
                    if member_before(m[n - 1], m[n - 1]) {
                        lemma_member_before_irreflexive(m[n - 1]);
                    }
                }
            },
        }
    }
}

/// `weakest_upto` gives a member of the status that comes before none of
/// that status among the first `n`.
pub proof fn lemma_weakest_upto(m: Seq<Member>, status: ValidatorStatus, n: int)
    requires
        0 <= n <= m.len(),
    ensures
        match weakest_upto(m, status, n) {
            Some(worst) => {
                &&& 0 <= worst < n
                &&& m[worst].status == status
                &&& forall|i: int|
                    0 <= i < n && (#[trigger] m[i]).status == status ==> !member_before(
                        m[worst],
                        m[i],
                    )
            },
            None => forall|i: int| 0 <= i < n ==> (#[trigger] m[i]).status != status,
        },
    decreases n,
{
    if n > 0 {
        lemma_weakest_upto(m, status, n - 1);
        match weakest_upto(m, status, n - 1) {
            Some(worst) => {
                if m[n - 1].status == status && member_before(m[worst], m[n - 1]) {
                    assert forall|i: int|
                        0 <= i < n && (#[trigger] m[i]).status == status implies !member_before(
                        m[n - 1],
                        m[i],
                    ) by {
                        if i < n - 1 && member_before(m[n - 1], m[i]) {
                            lemma_member_before_transitive(m[worst], m[n - 1], m[i]);
                        }
                        if i == n - 1 && member_before(m[n - 1], m[i]) {
                            lemma_member_before_irreflexive(m[i]);
                        }
                    }
                }
            },
            None => {
                if m[n - 1].status == status {
                    if member_before(m[n - 1], m[n - 1]) {
                        lemma_member_before_irreflexive(m[n - 1]);
                    }
                }
            },
        }
    }
}

proof fn lemma_member_before_transitive(a: Member, b: Member, c: Member)
    requires
        member_before(a, b),
        member_before(b, c),
    ensures
        member_before(a, c),
{
    if a.power == b.power && b.power == c.power {
        lemma_lex_transitive(a.key, b.key, c.key);
    }
}

proof fn lemma_member_before_irreflexive(a: Member)
    ensures
        !member_before(a, a),
{
    if lex_lt(a.key, a.key) {
        lemma_lex_asymmetric(a.key, a.key);
    }
}

/// The sum of the voting power of the standby members.
pub open spec fn standby_power(m: Seq<Member>) -> nat
    decreases m.len(),
{
    if m.len() == 0 {
        0
    } else {
        standby_power(m.drop_last()) + (if m.last().status == ValidatorStatus::Standby {
            m.last().power
        } else {
            0nat
        })
    }
}

/// How many members are active.
pub open spec fn active_members(m: Seq<Member>) -> nat
    decreases m.len(),
{
    if m.len() == 0 {
        0
    } else {
        active_members(m.drop_last()) + (if m.last().status == ValidatorStatus::Active {
            1nat
        } else {
            0nat
        })
    }
}

/// The members with the status of the one at `i` changed to `status`.
pub open spec fn with_status(m: Seq<Member>, i: int, status: ValidatorStatus) -> Seq<Member> {
    m.update(i, Member { status, ..m[i] })
}

/// The swap that rotation makes next: the strongest standby member for the
/// weakest active one, where the first has strictly more voting power.
pub open spec fn next_swap(m: Seq<Member>) -> Option<(int, int)> {
    match (strongest_standby(m), weakest_active(m)) {
        (Some(promoted), Some(demoted)) => if m[promoted].power > m[demoted].power {
            Some((promoted, demoted))
        } else {
            None
        },
        _ => None,
    }
}

/// The members after one swap.
pub open spec fn swapped(m: Seq<Member>, promoted: int, demoted: int) -> Seq<Member> {
    with_status(
        with_status(m, demoted, ValidatorStatus::Standby),
        promoted,
        ValidatorStatus::Active,
    )
}

proof fn lemma_standby_power_update(m: Seq<Member>, i: int, status: ValidatorStatus)
    requires
        0 <= i < m.len(),
    ensures
        standby_power(with_status(m, i, status)) + (if m[i].status == ValidatorStatus::Standby {
            m[i].power
        } else {
            0nat
        }) == standby_power(m) + (if status == ValidatorStatus::Standby {
            m[i].power
        } else {
            0nat
        }),
    decreases m.len(),
{
    let updated = with_status(m, i, status);
    if i == m.len() - 1 {
        assert(updated.drop_last() =~= m.drop_last());
    } else {
        lemma_standby_power_update(m.drop_last(), i, status);
        assert(updated.drop_last() =~= with_status(m.drop_last(), i, status));
    }
}

pub proof fn lemma_active_members_update(m: Seq<Member>, i: int, status: ValidatorStatus)
    requires
        0 <= i < m.len(),
    ensures
        active_members(with_status(m, i, status)) + (if m[i].status == ValidatorStatus::Active {
            1nat
        } else {
            0nat
        }) == active_members(m) + (if status == ValidatorStatus::Active {
            1nat
        } else {
            0nat
        }),
    decreases m.len(),
{
    let updated = with_status(m, i, status);
    if i == m.len() - 1 {
        assert(updated.drop_last() =~= m.drop_last());
    } else {
        lemma_active_members_update(m.drop_last(), i, status);
        assert(updated.drop_last() =~= with_status(m.drop_last(), i, status));
    }
}

/// A swap lowers the voting power that stands by, and keeps the number of
/// active members.
pub proof fn lemma_swap_progress(m: Seq<Member>)
    requires
        next_swap(m) is Some,
    ensures
        ({
            let (promoted, demoted) = next_swap(m)->Some_0;
            &&& 0 <= promoted < m.len()
            &&& 0 <= demoted < m.len()
            &&& promoted != demoted
            &&& m[promoted].status == ValidatorStatus::Standby
            &&& m[demoted].status == ValidatorStatus::Active
            &&& standby_power(swapped(m, promoted, demoted)) < standby_power(m)
            &&& active_members(swapped(m, promoted, demoted)) == active_members(m)
        }),
{
    lemma_strongest_upto(m, ValidatorStatus::Standby, m.len() as int);
    lemma_weakest_upto(m, ValidatorStatus::Active, m.len() as int);
    let (promoted, demoted) = next_swap(m)->Some_0;
    let mid = with_status(m, demoted, ValidatorStatus::Standby);
    lemma_standby_power_update(m, demoted, ValidatorStatus::Standby);
    lemma_standby_power_update(mid, promoted, ValidatorStatus::Active);
    lemma_active_members_update(m, demoted, ValidatorStatus::Standby);
    lemma_active_members_update(mid, promoted, ValidatorStatus::Active);
}

/// The members after all swaps: the strongest standby member replaces the
/// weakest active one for as long as it has strictly more voting power.
pub open spec fn after_swaps(m: Seq<Member>) -> Seq<Member>
    decreases standby_power(m),
    via after_swaps_decreases
{
    match next_swap(m) {
        Some((promoted, demoted)) => after_swaps(swapped(m, promoted, demoted)),
        None => m,
    }
}

#[via_fn]
proof fn after_swaps_decreases(m: Seq<Member>) {
    if next_swap(m) is Some {
        lemma_swap_progress(m);
    }
}

/// The swaps that `after_swaps` makes, in order: for each, the key of the
/// promoted and the key of the demoted validator.
pub open spec fn swaps_of(m: Seq<Member>) -> Seq<(Seq<u8>, Seq<u8>)>
    decreases standby_power(m),
    via swaps_of_decreases
{
    match next_swap(m) {
        Some((promoted, demoted)) => seq![(m[promoted].key, m[demoted].key)] + swaps_of(
            swapped(m, promoted, demoted),
        ),
        None => Seq::<(Seq<u8>, Seq<u8>)>::empty(),
    }
}

#[via_fn]
proof fn swaps_of_decreases(m: Seq<Member>) {
    if next_swap(m) is Some {
        lemma_swap_progress(m);
    }
}

/// The members after the `slots` strongest standby members were promoted,
/// or all standby members where they are fewer.
pub open spec fn after_fill(m: Seq<Member>, slots: nat) -> Seq<Member>
    decreases slots,
{
    if slots == 0 {
        m
    } else {
        match strongest_standby(m) {
            Some(promoted) => after_fill(
                with_status(m, promoted, ValidatorStatus::Active),
                (slots - 1) as nat,
            ),
            None => m,
        }
    }
}

/// The members after a rotation with the cap `cap` on the active set: the
/// swaps first; then, where fewer than `cap` are active, the strongest
/// standby members are promoted until `cap` are active.
pub open spec fn rotated(m: Seq<Member>, cap: nat) -> Seq<Member> {
    let swapped = after_swaps(m);
    if active_members(swapped) < cap {
        after_fill(swapped, (cap - active_members(swapped)) as nat)
    } else {
        swapped
    }
}

/// The pairs of keys of a list of swaps.
pub open spec fn swap_views(swaps: Seq<(PublicKey, PublicKey)>) -> Seq<(Seq<u8>, Seq<u8>)> {
    Seq::new(swaps.len(), |i: int| (swaps[i].0@, swaps[i].1@))
}

/// Whether the entries `after` are the entries `before` with nothing but
/// the status of validators changed.
pub open spec fn only_status_changed(
    before: Seq<(PublicKey, ValidatorInfo)>,
    after: Seq<(PublicKey, ValidatorInfo)>,
) -> bool {
    &&& after.len() == before.len()
    &&& forall|i: int|
        0 <= i < before.len() ==> (#[trigger] after[i]).0 == before[i].0 && after[i].1 == (
        ValidatorInfo { status: after[i].1.status, ..before[i].1 })
}

/// Whether `powers` holds, for each entry, the voting power of its key.
pub open spec fn powers_match(
    powers: Seq<u64>,
    entries: Seq<(PublicKey, ValidatorInfo)>,
    pool: StakingPool,
) -> bool {
    &&& powers.len() == entries.len()
    &&& forall|i: int| 0 <= i < entries.len() ==> #[trigger] powers[i] == pool.voting_power(
        entries[i].0@,
    )
}

/// Whether the member at `a` comes strictly before the member at `b`.
fn entry_before(
    validators: &KeyMap<ValidatorInfo>,
    powers: &Vec<u64>,
    a: usize,
    b: usize,
    pool: &StakingPool,
) -> (r: bool)
    requires
        powers_match(powers@, validators.entries(), *pool),
        a < validators.entries().len(),
        b < validators.entries().len(),
    ensures
        r == member_before(
            members_of(validators.entries(), *pool)[a as int],
            members_of(validators.entries(), *pool)[b as int],
        ),
{
    if powers[a] > powers[b] {
        true
    } else if powers[a] < powers[b] {
        false
    } else {
        match compare_keys(validators.key_at(a), validators.key_at(b)) {
            KeyOrder::Less => true,
            _ => false,
        }
    }
}

/// The strongest validator of the status `status`.
fn find_strongest(
    validators: &KeyMap<ValidatorInfo>,
    powers: &Vec<u64>,
    status: ValidatorStatus,
    pool: &StakingPool,
) -> (r: Option<usize>)
    requires
        powers_match(powers@, validators.entries(), *pool),
    ensures
        match r {
            Some(i) => strongest_upto(
                members_of(validators.entries(), *pool),
                status,
                validators.entries().len() as int,
            ) == Some(i as int) && i < validators.entries().len(),
            None => strongest_upto(
                members_of(validators.entries(), *pool),
                status,
                validators.entries().len() as int,
            ) is None,
        },
{
    let ghost m = members_of(validators.entries(), *pool);
    let mut best: Option<usize> = None;
    let mut n: usize = 0;
    while n < validators.len()
        invariant
            n <= validators.entries().len(),
            m == members_of(validators.entries(), *pool),
            powers_match(powers@, validators.entries(), *pool),
            match best {
                Some(i) => strongest_upto(m, status, n as int) == Some(i as int) && i < n,
                None => strongest_upto(m, status, n as int) is None,
            },
        decreases validators.entries().len() - n,
    {
        if validators.value_at(n).status == status {
            match best {
                None => {
                    best = Some(n);
                },
                Some(i) => {
                    if entry_before(validators, powers, n, i, pool) {
                        best = Some(n);
                    }
                },
            }
        }
        n += 1;
    }
    best
}

/// The weakest validator of the status `status`.
fn find_weakest(
    validators: &KeyMap<ValidatorInfo>,
    powers: &Vec<u64>,
    status: ValidatorStatus,
    pool: &StakingPool,
) -> (r: Option<usize>)
    requires
        powers_match(powers@, validators.entries(), *pool),
    ensures
        match r {
            Some(i) => weakest_upto(
                members_of(validators.entries(), *pool),
                status,
                validators.entries().len() as int,
            ) == Some(i as int) && i < validators.entries().len(),
            None => weakest_upto(
                members_of(validators.entries(), *pool),
                status,
                validators.entries().len() as int,
            ) is None,
        },
{
    let ghost m = members_of(validators.entries(), *pool);
    let mut worst: Option<usize> = None;
    let mut n: usize = 0;
    while n < validators.len()
        invariant
            n <= validators.entries().len(),
            m == members_of(validators.entries(), *pool),
            powers_match(powers@, validators.entries(), *pool),
            match worst {
                Some(i) => weakest_upto(m, status, n as int) == Some(i as int) && i < n,
                None => weakest_upto(m, status, n as int) is None,
            },
        decreases validators.entries().len() - n,
    {
        if validators.value_at(n).status == status {
            match worst {
                None => {
                    worst = Some(n);
                },
                Some(i) => {
                    if entry_before(validators, powers, i, n, pool) {
                        worst = Some(n);
                    }
                },
            }
        }
        n += 1;
    }
    worst
}

/// Gives the validator at position `i` the status `status`.
fn set_status_at(
    validators: &mut KeyMap<ValidatorInfo>,
    i: usize,
    status: ValidatorStatus,
    pool: &StakingPool,
)
    requires
        old(validators).wf(),
        i < old(validators).entries().len(),
    ensures
        final(validators).wf(),
        only_status_changed(old(validators).entries(), final(validators).entries()),
        final(validators).entries() == old(validators).entries().update(
            i as int,
            (
                old(validators).entries()[i as int].0,
                ValidatorInfo { status, ..old(validators).entries()[i as int].1 },
            ),
        ),
        members_of(final(validators).entries(), *pool) == with_status(
            members_of(old(validators).entries(), *pool),
            i as int,
            status,
        ),
{
    let info = *validators.value_at(i);
    validators.replace_at(
        i,
        ValidatorInfo {
            pubkey: info.pubkey,
            stake: info.stake,
            commission_rate: info.commission_rate,
            status,
            performance_score: info.performance_score,
            join_height: info.join_height,
        },
    );
    proof {
        assert(members_of(validators.entries(), *pool) =~= with_status(
            members_of(old(validators).entries(), *pool),
            i as int,
            status,
        ));
    }
}

/// How many of the entries are active validators.
pub open spec fn active_entries(entries: Seq<(PublicKey, ValidatorInfo)>) -> nat
    decreases entries.len(),
{
    if entries.len() == 0 {
        0
    } else {
        active_entries(entries.drop_last()) + (if entries.last().1.status
            == ValidatorStatus::Active {
            1nat
        } else {
            0nat
        })
    }
}

/// The members of a map have as many active ones as the map has active entries.
pub proof fn lemma_active_members_of(entries: Seq<(PublicKey, ValidatorInfo)>, pool: StakingPool)
    ensures
        active_members(members_of(entries, pool)) == active_entries(entries),
    decreases entries.len(),
{
    if entries.len() > 0 {
        lemma_active_members_of(entries.drop_last(), pool);
        assert(members_of(entries, pool).drop_last() =~= members_of(entries.drop_last(), pool));
    }
}

/// No more entries are active than there are entries.
pub proof fn lemma_active_entries_bounded(entries: Seq<(PublicKey, ValidatorInfo)>)
    ensures
        active_entries(entries) <= entries.len(),
    decreases entries.len(),
{
    if entries.len() > 0 {
        lemma_active_entries_bounded(entries.drop_last());
    }
}

/// An inserted entry adds one to the active entries if it is active.
pub proof fn lemma_active_entries_insert(
    entries: Seq<(PublicKey, ValidatorInfo)>,
    i: int,
    entry: (PublicKey, ValidatorInfo),
)
    requires
        0 <= i <= entries.len(),
    ensures
        active_entries(entries.insert(i, entry)) == active_entries(entries) + (if entry.1.status
            == ValidatorStatus::Active {
            1nat
        } else {
            0nat
        }),
    decreases entries.len() - i,
{
    let inserted = entries.insert(i, entry);
    if i == entries.len() {
        assert(inserted.drop_last() =~= entries);
    } else {
        lemma_active_entries_insert(entries.drop_last(), i, entry);
        assert(inserted.drop_last() =~= entries.drop_last().insert(i, entry));
    }
}

/// A removed entry takes one from the active entries if it was active.
pub proof fn lemma_active_entries_remove(entries: Seq<(PublicKey, ValidatorInfo)>, i: int)
    requires
        0 <= i < entries.len(),
    ensures
        active_entries(entries.remove(i)) + (if entries[i].1.status == ValidatorStatus::Active {
            1nat
        } else {
            0nat
        }) == active_entries(entries),
    decreases entries.len() - i,
{
    let removed = entries.remove(i);
    if i == entries.len() - 1 {
        assert(removed =~= entries.drop_last());
    } else {
        lemma_active_entries_remove(entries.drop_last(), i);
        assert(removed.drop_last() =~= entries.drop_last().remove(i));
    }
}

/// A changed entry changes the active entries by what its status changed.
pub proof fn lemma_active_entries_update(
    entries: Seq<(PublicKey, ValidatorInfo)>,
    i: int,
    entry: (PublicKey, ValidatorInfo),
)
    requires
        0 <= i < entries.len(),
    ensures
        active_entries(entries.update(i, entry)) + (if entries[i].1.status
            == ValidatorStatus::Active {
            1nat
        } else {
            0nat
        }) == active_entries(entries) + (if entry.1.status == ValidatorStatus::Active {
            1nat
        } else {
            0nat
        }),
    decreases entries.len() - i,
{
    let updated = entries.update(i, entry);
    if i == entries.len() - 1 {
        assert(updated.drop_last() =~= entries.drop_last());
    } else {
        lemma_active_entries_update(entries.drop_last(), i, entry);
        assert(updated.drop_last() =~= entries.drop_last().update(i, entry));
    }
}

/// How many validators are active.
pub fn count_active(validators: &KeyMap<ValidatorInfo>) -> (n: usize)
    ensures
        n == active_entries(validators.entries()),
{
    let ghost all = validators.entries();
    let mut count: usize = 0;
    let mut i: usize = 0;
    proof {
        assert(all.subrange(0, 0) =~= Seq::<(PublicKey, ValidatorInfo)>::empty());
    }
    while i < validators.len()
        invariant
            i <= validators.entries().len(),
            all == validators.entries(),
            count <= i,
            count == active_entries(all.subrange(0, i as int)),
        decreases validators.entries().len() - i,
    {
        proof {
            assert(all.subrange(0, i + 1).drop_last() =~= all.subrange(0, i as int));
        }
        if validators.value_at(i).status == ValidatorStatus::Active {
            count += 1;
        }
        i += 1;
    }
    proof {
        assert(all.subrange(0, i as int) =~= all);
    }
    count
}

/// The swaps keep the number of active members.
pub proof fn lemma_after_swaps_keeps_active(m: Seq<Member>)
    ensures
        active_members(after_swaps(m)) == active_members(m),
        after_swaps(m).len() == m.len(),
    decreases standby_power(m),
{
    if next_swap(m) is Some {
        lemma_swap_progress(m);
        let (promoted, demoted) = next_swap(m)->Some_0;
        lemma_after_swaps_keeps_active(swapped(m, promoted, demoted));
    }
}

/// Filling `slots` places adds at most `slots` active members.
pub proof fn lemma_after_fill_bounded(m: Seq<Member>, slots: nat)
    ensures
        active_members(m) <= active_members(after_fill(m, slots)) <= active_members(m) + slots,
    decreases slots,
{
    if slots > 0 {
        lemma_strongest_upto(m, ValidatorStatus::Standby, m.len() as int);
        match strongest_standby(m) {
            Some(promoted) => {
                lemma_active_members_update(m, promoted, ValidatorStatus::Active);
                lemma_after_fill_bounded(
                    with_status(m, promoted, ValidatorStatus::Active),
                    (slots - 1) as nat,
                );
            },
            None => {},
        }
    }
}

/// A rotation never makes more validators active than the cap allows,
/// where no more were active before.
pub proof fn law_rotation_respects_cap(m: Seq<Member>, cap: nat)
    requires
        active_members(m) <= cap,
    ensures
        active_members(rotated(m, cap)) <= cap,
{
    lemma_after_swaps_keeps_active(m);
    let settled = after_swaps(m);
    if active_members(settled) < cap {
        lemma_after_fill_bounded(settled, (cap - active_members(settled)) as nat);
    }
}

/// Rotates the active set. While the strongest standby validator has
/// strictly more voting power than the weakest active one, the two change
/// places. Then, where fewer than `active_cap` validators are active, the
/// strongest standby validators are promoted until the active set is full.
/// Returns the swaps in order, each as the promoted and the demoted key.
/// Nothing but the status of validators changes, and jailed validators stay
/// as they are.
pub fn rotate(
    validators: &mut KeyMap<ValidatorInfo>,
    staking_pool: &StakingPool,
    active_cap: usize,
) -> (swaps: Vec<(PublicKey, PublicKey)>)
    requires
        old(validators).wf(),
    ensures
        final(validators).wf(),
        only_status_changed(old(validators).entries(), final(validators).entries()),
        members_of(final(validators).entries(), *staking_pool) == rotated(
            members_of(old(validators).entries(), *staking_pool),
            active_cap as nat,
        ),
        swap_views(swaps@) == swaps_of(members_of(old(validators).entries(), *staking_pool)),
{
    let ghost start = validators.entries();
    let ghost m0 = members_of(start, *staking_pool);
    let mut powers: Vec<u64> = Vec::new();
    let mut i: usize = 0;
    while i < validators.len()
        invariant
            i <= validators.entries().len(),
            powers@.len() == i,
            forall|j: int|
                0 <= j < i ==> #[trigger] powers@[j] == staking_pool.voting_power(
                    validators.entries()[j].0@,
                ),
        decreases validators.entries().len() - i,
    {
        powers.push(staking_pool.get_voting_power(validators.key_at(i)));
        i += 1;
    }
    let mut swaps: Vec<(PublicKey, PublicKey)> = Vec::new();
    let mut more = true;
    proof {
        assert(swap_views(swaps@) =~= Seq::<(Seq<u8>, Seq<u8>)>::empty());
        assert(swap_views(swaps@) + swaps_of(m0) =~= swaps_of(m0));
    }
    while more
        invariant
            validators.wf(),
            only_status_changed(start, validators.entries()),
            powers_match(powers@, validators.entries(), *staking_pool),
            m0 == members_of(start, *staking_pool),
            after_swaps(members_of(validators.entries(), *staking_pool)) == after_swaps(m0),
            swap_views(swaps@) + swaps_of(members_of(validators.entries(), *staking_pool))
                == swaps_of(m0),
            !more ==> next_swap(members_of(validators.entries(), *staking_pool)) is None,
        decreases
                (if more {
                    standby_power(members_of(validators.entries(), *staking_pool)) + 1
                } else {
                    0
                }),
    {
        let ghost cur = members_of(validators.entries(), *staking_pool);
        let ghost before_entries = validators.entries();
        let promoted = find_strongest(validators, &powers, ValidatorStatus::Standby, staking_pool);
        let demoted = find_weakest(validators, &powers, ValidatorStatus::Active, staking_pool);
        match (promoted, demoted) {
            (Some(p), Some(d)) => {
                if powers[p] > powers[d] {
                    proof {
                        assert(next_swap(cur) == Some((p as int, d as int)));
                        lemma_swap_progress(cur);
                    }
                    let promoted_key = *validators.key_at(p);
                    let demoted_key = *validators.key_at(d);
                    set_status_at(validators, d, ValidatorStatus::Standby, staking_pool);
                    set_status_at(validators, p, ValidatorStatus::Active, staking_pool);
                    let ghost old_swaps = swaps@;
                    swaps.push((promoted_key, demoted_key));
                    proof {
                        let next = members_of(validators.entries(), *staking_pool);
                        assert(next == swapped(cur, p as int, d as int));
                        assert(swap_views(swaps@) =~= swap_views(old_swaps) + seq![
                            (cur[p as int].key, cur[d as int].key),
                        ]);
                        assert(swap_views(swaps@) + swaps_of(next) =~= swap_views(old_swaps) + (
                        seq![(cur[p as int].key, cur[d as int].key)] + swaps_of(next)));
                        assert forall|j: int| 0 <= j < start.len() implies (
                        #[trigger] validators.entries()[j]).0 == start[j].0
                            && validators.entries()[j].1 == (ValidatorInfo {
                            status: validators.entries()[j].1.status,
                            ..start[j].1
                        }) by {
                            assert(before_entries[j].0 == start[j].0);
                        }
                    }
                } else {
                    more = false;
                }
            },
            _ => {
                more = false;
            },
        }
    }
    let ghost settled = members_of(validators.entries(), *staking_pool);
    proof {
        assert(after_swaps(settled) == settled);
        assert(swaps_of(settled) =~= Seq::<(Seq<u8>, Seq<u8>)>::empty());
        assert(swap_views(swaps@) =~= swaps_of(m0));
    }
    let active = count_active(validators);
    proof {
        lemma_active_members_of(validators.entries(), *staking_pool);
    }
    if active < active_cap {
        let mut slots: usize = active_cap - active;
        while slots > 0
            invariant
                validators.wf(),
                only_status_changed(start, validators.entries()),
                powers_match(powers@, validators.entries(), *staking_pool),
                after_fill(members_of(validators.entries(), *staking_pool), slots as nat)
                    == rotated(m0, active_cap as nat),
            decreases slots,
        {
            let ghost before_entries = validators.entries();
            match find_strongest(validators, &powers, ValidatorStatus::Standby, staking_pool) {
                Some(p) => {
                    set_status_at(validators, p, ValidatorStatus::Active, staking_pool);
                    proof {
                        assert forall|j: int| 0 <= j < start.len() implies (
                        #[trigger] validators.entries()[j]).0 == start[j].0
                            && validators.entries()[j].1 == (ValidatorInfo {
                            status: validators.entries()[j].1.status,
                            ..start[j].1
                        }) by {
                            assert(before_entries[j].0 == start[j].0);
                        }
                    }
                    slots -= 1;
                },
                None => {
                    slots = 0;
                },
            }
        }
    }
    swaps
}

/// Jails a validator, whatever its status was. Fails for a key that is not
/// registered.
pub fn jail(validators: &mut KeyMap<ValidatorInfo>, pubkey: &PublicKey) -> (r: ValidatorSetResult<
    (),
>)
    requires
        old(validators).wf(),
    ensures
        final(validators).wf(),
        match r {
            Ok(_) => old(validators)@.dom().contains(pubkey@) && final(validators)@ == old(
                validators,
            )@.insert(
                pubkey@,
                ValidatorInfo { status: ValidatorStatus::Jailed, ..old(validators)@[pubkey@] },
            ),
            Err(error) => !old(validators)@.dom().contains(pubkey@) && error
                == ValidatorSetError::NotFound(*pubkey) && final(validators)@ == old(validators)@,
        },
{
    let info = match validators.get(pubkey) {
        Some(info) => *info,
        None => {
            return Err(ValidatorSetError::NotFound(*pubkey));
        },
    };
    validators.insert(
        *pubkey,
        ValidatorInfo {
            pubkey: info.pubkey,
            stake: info.stake,
            commission_rate: info.commission_rate,
            status: ValidatorStatus::Jailed,
            performance_score: info.performance_score,
            join_height: info.join_height,
        },
    );
    Ok(())
}

/// Moves a jailed validator to Standby. Fails for a key that is not
/// registered and for a validator that is not jailed.
pub fn unjail(validators: &mut KeyMap<ValidatorInfo>, pubkey: &PublicKey) -> (r:
    ValidatorSetResult<()>)
    requires
        old(validators).wf(),
    ensures
        final(validators).wf(),
        r is Err ==> final(validators)@ == old(validators)@,
        !old(validators)@.dom().contains(pubkey@) ==> r == Err::<(), ValidatorSetError>(
            ValidatorSetError::NotFound(*pubkey),
        ),
        old(validators)@.dom().contains(pubkey@) && old(validators)@[pubkey@].status
            != ValidatorStatus::Jailed ==> r == Err::<(), ValidatorSetError>(
            ValidatorSetError::NotJailed,
        ),
        old(validators)@.dom().contains(pubkey@) && old(validators)@[pubkey@].status
            == ValidatorStatus::Jailed ==> r is Ok && final(validators)@ == old(
            validators,
        )@.insert(
            pubkey@,
            ValidatorInfo { status: ValidatorStatus::Standby, ..old(validators)@[pubkey@] },
        ),
{
    let info = match validators.get(pubkey) {
        Some(info) => *info,
        None => {
            return Err(ValidatorSetError::NotFound(*pubkey));
        },
    };
    if info.status != ValidatorStatus::Jailed {
        return Err(ValidatorSetError::NotJailed);
    }
    validators.insert(
        *pubkey,
        ValidatorInfo {
            pubkey: info.pubkey,
            stake: info.stake,
            commission_rate: info.commission_rate,
            status: ValidatorStatus::Standby,
            performance_score: info.performance_score,
            join_height: info.join_height,
        },
    );
    Ok(())
}

} // verus!
