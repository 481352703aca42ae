//! What a rotation of the active set achieves, stated directly: who is
//! active afterwards, how many are, and what stays as it was.

use vstd::prelude::*;
use crate::keys::lemma_lex_total;
use crate::validator_set::rotation::{
    Member,
    RankedValidator,
    ranked_before,
    ranked_in_order,
    active_members,
    after_fill,
    after_swaps,
    lemma_active_members_update,
    lemma_after_swaps_keeps_active,
    lemma_strongest_upto,
    lemma_swap_progress,
    lemma_weakest_upto,
    member_before,
    next_swap,
    rotated,
    standby_power,
    strongest_standby,
    swapped,
    swaps_of,
    weakest_active,
    with_status,
};
use crate::validator_set::types::ValidatorStatus;

verus! {

/// Whether `b` holds the members of `a` with nothing changed but the
/// status of members that are not jailed: the keys and the voting powers
/// are the same, and the jailed members are the same.
pub open spec fn same_members(a: Seq<Member>, b: Seq<Member>) -> bool {
    &&& a.len() == b.len()
    &&& forall|i: int|
        0 <= i < a.len() ==> (#[trigger] b[i]).key == a[i].key && b[i].power == a[i].power && (
        b[i].status == ValidatorStatus::Jailed <==> a[i].status == ValidatorStatus::Jailed)
}

/// Whether no standby member has more voting power than an active one.
pub open spec fn settled(m: Seq<Member>) -> bool {
    forall|i: int, j: int|
        0 <= i < m.len() && 0 <= j < m.len() && (#[trigger] m[i]).status
            == ValidatorStatus::Standby && (#[trigger] m[j]).status == ValidatorStatus::Active
            ==> m[i].power <= m[j].power
}

/// How many members stand by.
pub open spec fn standby_members(m: Seq<Member>) -> nat
    decreases m.len(),
{
    if m.len() == 0 {
        0
    } else {
        standby_members(m.drop_last()) + (if m.last().status == ValidatorStatus::Standby {
            1nat
        } else {
            0nat
        })
    }
}

/// The smaller of two numbers.
pub open spec fn least(a: nat, b: nat) -> nat {
    if a <= b {
        a
    } else {
        b
    }
}

proof fn lemma_after_swaps_same(m: Seq<Member>)
    ensures
        same_members(m, after_swaps(m)),
    decreases standby_power(m),
{
    if next_swap(m) is Some {
        lemma_swap_progress(m);
        let (promoted, demoted) = next_swap(m)->Some_0;
        let next = swapped(m, promoted, demoted);
        lemma_after_swaps_same(next);
        assert(same_members(m, next));
        assert forall|i: int| 0 <= i < m.len() implies (#[trigger] after_swaps(m)[i]).key
            == m[i].key && after_swaps(m)[i].power == m[i].power && (after_swaps(m)[i].status
            == ValidatorStatus::Jailed <==> m[i].status == ValidatorStatus::Jailed) by {
            assert(after_swaps(next)[i].key == next[i].key);
        }
    }
}

proof fn lemma_after_fill_same(m: Seq<Member>, slots: nat)
    ensures
        same_members(m, after_fill(m, slots)),
    decreases slots,
{
    if slots > 0 {
        lemma_strongest_upto(m, ValidatorStatus::Standby, m.len() as int);
        match strongest_standby(m) {
            Some(promoted) => {
                let next = with_status(m, promoted, ValidatorStatus::Active);
                lemma_after_fill_same(next, (slots - 1) as nat);
                assert(same_members(m, next));
                assert forall|i: int| 0 <= i < m.len() implies (#[trigger] after_fill(
                    m,
                    slots,
                )[i]).key == m[i].key && after_fill(m, slots)[i].power == m[i].power && (
                after_fill(m, slots)[i].status == ValidatorStatus::Jailed <==> m[i].status
                    == ValidatorStatus::Jailed) by {
                    assert(after_fill(next, (slots - 1) as nat)[i].key == next[i].key);
                }
            },
            None => {},
        }
    }
}

/// A rotation changes nothing but the status of validators that are not
/// jailed: every key and every voting power stays, and the jailed
/// validators are the same before and after.
pub proof fn law_rotation_leaves_jailed(m: Seq<Member>, cap: nat)
    ensures
        same_members(m, rotated(m, cap)),
{
    lemma_after_swaps_same(m);
    let swapped = after_swaps(m);
    if active_members(swapped) < cap {
        lemma_after_fill_same(swapped, (cap - active_members(swapped)) as nat);
        let filled = after_fill(swapped, (cap - active_members(swapped)) as nat);
        assert forall|i: int| 0 <= i < m.len() implies (#[trigger] filled[i]).key == m[i].key
            && filled[i].power == m[i].power && (filled[i].status == ValidatorStatus::Jailed
            <==> m[i].status == ValidatorStatus::Jailed) by {
            assert(swapped[i].key == m[i].key);
        }
    }
}

proof fn lemma_no_swap_settled(m: Seq<Member>)
    requires
        next_swap(m) is None,
    ensures
        settled(m),
{
    lemma_strongest_upto(m, ValidatorStatus::Standby, m.len() as int);
    lemma_weakest_upto(m, ValidatorStatus::Active, m.len() as int);
    assert forall|i: int, j: int|
        0 <= i < m.len() && 0 <= j < m.len() && (#[trigger] m[i]).status
            == ValidatorStatus::Standby && (#[trigger] m[j]).status
            == ValidatorStatus::Active implies m[i].power <= m[j].power by {
        let best = strongest_standby(m)->Some_0;
        let worst = weakest_active(m)->Some_0;
        assert(!member_before(m[i], m[best]));
        assert(!member_before(m[worst], m[j]));
    }
}

proof fn lemma_after_swaps_settled(m: Seq<Member>)
    ensures
        settled(after_swaps(m)),
    decreases standby_power(m),
{
    if next_swap(m) is Some {
        lemma_swap_progress(m);
        let (promoted, demoted) = next_swap(m)->Some_0;
        lemma_after_swaps_settled(swapped(m, promoted, demoted));
    } else {
        lemma_no_swap_settled(m);
    }
}

proof fn lemma_fill_keeps_settled(m: Seq<Member>, slots: nat)
    requires
        settled(m),
    ensures
        settled(after_fill(m, slots)),
    decreases slots,
{
    if slots > 0 {
        lemma_strongest_upto(m, ValidatorStatus::Standby, m.len() as int);
        match strongest_standby(m) {
            Some(promoted) => {
                let next = with_status(m, promoted, ValidatorStatus::Active);
                assert forall|i: int, j: int|
                    0 <= i < next.len() && 0 <= j < next.len() && (#[trigger] next[i]).status
                        == ValidatorStatus::Standby && (#[trigger] next[j]).status
                        == ValidatorStatus::Active implies next[i].power <= next[j].power by {
                    assert(m[i].status == ValidatorStatus::Standby);
                    if j == promoted {
                        assert(!member_before(m[i], m[promoted]));
                    } else {
                        assert(m[j].status == ValidatorStatus::Active);
                    }
                }
                lemma_fill_keeps_settled(next, (slots - 1) as nat);
            },
            None => {},
        }
    }
}

/// After a rotation no standby validator has more voting power than an
/// active one.
pub proof fn law_rotation_ranks_active_above_standby(m: Seq<Member>, cap: nat)
    ensures
        settled(rotated(m, cap)),
{
    lemma_after_swaps_settled(m);
    let swapped = after_swaps(m);
    if active_members(swapped) < cap {
        lemma_fill_keeps_settled(swapped, (cap - active_members(swapped)) as nat);
    }
}

proof fn lemma_standby_members_update(m: Seq<Member>, i: int, status: ValidatorStatus)
    requires
        0 <= i < m.len(),
    ensures
        standby_members(with_status(m, i, status)) + (if m[i].status == ValidatorStatus::Standby {
            1nat
        } else {
            0nat
        }) == standby_members(m) + (if status == ValidatorStatus::Standby {
            1nat
        } else {
            0nat
        }),
    decreases m.len(),
{
    let updated = with_status(m, i, status);
    if i == m.len() - 1 {
        assert(updated.drop_last() =~= m.drop_last());
    } else {
        lemma_standby_members_update(m.drop_last(), i, status);
        assert(updated.drop_last() =~= with_status(m.drop_last(), i, status));
    }
}

proof fn lemma_no_standby(m: Seq<Member>)
    requires
        forall|i: int| 0 <= i < m.len() ==> (#[trigger] m[i]).status != ValidatorStatus::Standby,
    ensures
        standby_members(m) == 0,
    decreases m.len(),
{
    if m.len() > 0 {
        assert forall|i: int| 0 <= i < m.drop_last().len() implies (#[trigger] m.drop_last()[i]).status
            != ValidatorStatus::Standby by {
            assert(m.drop_last()[i] == m[i]);
        }
        lemma_no_standby(m.drop_last());
    }
}

proof fn lemma_after_swaps_keeps_standby(m: Seq<Member>)
    ensures
        standby_members(after_swaps(m)) == standby_members(m),
    decreases standby_power(m),
{
    if next_swap(m) is Some {
        lemma_swap_progress(m);
        let (promoted, demoted) = next_swap(m)->Some_0;
        let mid = with_status(m, demoted, ValidatorStatus::Standby);
        lemma_standby_members_update(m, demoted, ValidatorStatus::Standby);
        lemma_standby_members_update(mid, promoted, ValidatorStatus::Active);
        lemma_after_swaps_keeps_standby(swapped(m, promoted, demoted));
    }
}

proof fn lemma_after_fill_count(m: Seq<Member>, slots: nat)
    ensures
        active_members(after_fill(m, slots)) == active_members(m) + least(
            slots,
            standby_members(m),
        ),
    decreases slots,
{
    if slots > 0 {
        lemma_strongest_upto(m, ValidatorStatus::Standby, m.len() as int);
        match strongest_standby(m) {
            Some(promoted) => {
                let next = with_status(m, promoted, ValidatorStatus::Active);
                lemma_active_members_update(
                    m,
                    promoted,
                    ValidatorStatus::Active,
                );
                lemma_standby_members_update(m, promoted, ValidatorStatus::Active);
                lemma_after_fill_count(next, (slots - 1) as nat);
            },
            None => {
                lemma_no_standby(m);
            },
        }
    }
}

/// How many validators are active after a rotation: as many as before
/// where the active set was at its cap or above; else the cap, or all that
/// were active or standing by where those are fewer.
pub proof fn law_rotation_active_count(m: Seq<Member>, cap: nat)
    ensures
        active_members(rotated(m, cap)) == (if active_members(m) >= cap {
            active_members(m)
        } else {
            least(cap, active_members(m) + standby_members(m))
        }),
{
    lemma_after_swaps_keeps_active(m);
    lemma_after_swaps_keeps_standby(m);
    let swapped = after_swaps(m);
    if active_members(swapped) < cap {
        lemma_after_fill_count(swapped, (cap - active_members(swapped)) as nat);
    }
}

/// The swaps that a rotation makes, in order, as positions: for each, the
/// position of the promoted and that of the demoted member.
pub open spec fn swap_steps(m: Seq<Member>) -> Seq<(int, int)>
    decreases standby_power(m),
    via swap_steps_decreases
{
    match next_swap(m) {
        Some((promoted, demoted)) => seq![(promoted, demoted)] + swap_steps(
            swapped(m, promoted, demoted),
        ),
        None => Seq::<(int, int)>::empty(),
    }
}

#[via_fn]
proof fn swap_steps_decreases(m: Seq<Member>) {
    if next_swap(m) is Some {
        lemma_swap_progress(m);
    }
}

/// An active member that has at least the voting power of every standby
/// member is not demoted by the swaps.
proof fn lemma_dominant_stays(m: Seq<Member>, x: int)
    requires
        0 <= x < m.len(),
        m[x].status == ValidatorStatus::Active,
        forall|s: int|
            0 <= s < m.len() && (#[trigger] m[s]).status == ValidatorStatus::Standby ==> m[s].power
                <= m[x].power,
    ensures
        after_swaps(m)[x].status == ValidatorStatus::Active,
        forall|k: int| 0 <= k < swap_steps(m).len() ==> (#[trigger] swap_steps(m)[k]).1 != x,
    decreases standby_power(m),
{
    if next_swap(m) is Some {
        lemma_swap_progress(m);
        lemma_strongest_upto(m, ValidatorStatus::Standby, m.len() as int);
        lemma_weakest_upto(m, ValidatorStatus::Active, m.len() as int);
        let (promoted, demoted) = next_swap(m)->Some_0;
        let next = swapped(m, promoted, demoted);
        assert(m[promoted].power <= m[x].power);
        assert(demoted != x);
        assert forall|s: int|
            0 <= s < next.len() && (#[trigger] next[s]).status
                == ValidatorStatus::Standby implies next[s].power <= next[x].power by {
            if s != demoted {
                assert(m[s].status == ValidatorStatus::Standby);
            }
        }
        lemma_dominant_stays(next, x);
        assert forall|k: int| 0 <= k < swap_steps(m).len() implies (#[trigger] swap_steps(
            m,
        )[k]).1 != x by {
            if k > 0 {
                assert(swap_steps(m)[k] == swap_steps(next)[k - 1]);
            }
        }
    }
}

/// A standby member that has at most the voting power of every active
/// member is not promoted by the swaps.
proof fn lemma_dominated_stays(m: Seq<Member>, y: int)
    requires
        0 <= y < m.len(),
        m[y].status == ValidatorStatus::Standby,
        forall|a: int|
            0 <= a < m.len() && (#[trigger] m[a]).status == ValidatorStatus::Active ==> m[y].power
                <= m[a].power,
    ensures
        forall|k: int| 0 <= k < swap_steps(m).len() ==> (#[trigger] swap_steps(m)[k]).0 != y,
    decreases standby_power(m),
{
    if next_swap(m) is Some {
        lemma_swap_progress(m);
        lemma_strongest_upto(m, ValidatorStatus::Standby, m.len() as int);
        lemma_weakest_upto(m, ValidatorStatus::Active, m.len() as int);
        let (promoted, demoted) = next_swap(m)->Some_0;
        let next = swapped(m, promoted, demoted);
        assert(m[y].power <= m[demoted].power);
        assert(promoted != y);
        assert forall|a: int|
            0 <= a < next.len() && (#[trigger] next[a]).status
                == ValidatorStatus::Active implies next[y].power <= next[a].power by {
            if a != promoted {
                assert(m[a].status == ValidatorStatus::Active);
            }
        }
        lemma_dominated_stays(next, y);
        assert forall|k: int| 0 <= k < swap_steps(m).len() implies (#[trigger] swap_steps(
            m,
        )[k]).0 != y by {
            if k > 0 {
                assert(swap_steps(m)[k] == swap_steps(next)[k - 1]);
            }
        }
    }
}

/// Whether the swap at `k` of the swaps of `m` changes a member that stood
/// by in `m` for one that was active in `m` and has strictly less voting
/// power, names the two by their keys, and leaves the promoted one active
/// in `end`.
pub open spec fn swap_is_sound(m: Seq<Member>, end: Seq<Member>, k: int) -> bool {
    let (promoted, demoted) = swap_steps(m)[k];
    &&& 0 <= promoted < m.len()
    &&& 0 <= demoted < m.len()
    &&& swaps_of(m)[k] == (m[promoted].key, m[demoted].key)
    &&& m[promoted].status == ValidatorStatus::Standby
    &&& m[demoted].status == ValidatorStatus::Active
    &&& m[promoted].power > m[demoted].power
    &&& end[promoted].status == ValidatorStatus::Active
}

proof fn lemma_swaps_sound(m: Seq<Member>)
    ensures
        swaps_of(m).len() == swap_steps(m).len(),
        after_swaps(m).len() == m.len(),
        forall|k: int| 0 <= k < swap_steps(m).len() ==> swap_is_sound(m, after_swaps(m), k),
    decreases standby_power(m),
{
    lemma_after_swaps_keeps_active(m);
    if next_swap(m) is Some {
        lemma_swap_progress(m);
        lemma_strongest_upto(m, ValidatorStatus::Standby, m.len() as int);
        lemma_weakest_upto(m, ValidatorStatus::Active, m.len() as int);
        let (promoted, demoted) = next_swap(m)->Some_0;
        let next = swapped(m, promoted, demoted);
        lemma_swaps_sound(next);
        assert forall|s: int|
            0 <= s < next.len() && (#[trigger] next[s]).status
                == ValidatorStatus::Standby implies next[s].power <= next[promoted].power by {
            if s != demoted {
                assert(m[s].status == ValidatorStatus::Standby);
                assert(!member_before(m[s], m[promoted]));
            }
        }
        lemma_dominant_stays(next, promoted);
        assert forall|a: int|
            0 <= a < next.len() && (#[trigger] next[a]).status
                == ValidatorStatus::Active implies next[demoted].power <= next[a].power by {
            if a != promoted {
                assert(m[a].status == ValidatorStatus::Active);
                assert(!member_before(m[demoted], m[a]));
            }
        }
        lemma_dominated_stays(next, demoted);
        assert forall|k: int| 0 <= k < swap_steps(m).len() implies swap_is_sound(
            m,
            after_swaps(m),
            k,
        ) by {
            if k > 0 {
                assert(swap_steps(m)[k] == swap_steps(next)[k - 1]);
                assert(swaps_of(m)[k] == swaps_of(next)[k - 1]);
                assert(swap_is_sound(next, after_swaps(next), k - 1));
                let (p, d) = swap_steps(next)[k - 1];
                assert(p != demoted);
                assert(d != promoted);
                assert(p != promoted);
                assert(d != demoted);
                assert(next[p] == m[p]);
                assert(next[d] == m[d]);
            }
        }
    }
}

proof fn lemma_fill_keeps_active(m: Seq<Member>, slots: nat, x: int)
    requires
        0 <= x < m.len(),
        m[x].status == ValidatorStatus::Active,
    ensures
        after_fill(m, slots)[x].status == ValidatorStatus::Active,
    decreases slots,
{
    if slots > 0 {
        lemma_strongest_upto(m, ValidatorStatus::Standby, m.len() as int);
        match strongest_standby(m) {
            Some(promoted) => {
                lemma_fill_keeps_active(
                    with_status(m, promoted, ValidatorStatus::Active),
                    (slots - 1) as nat,
                    x,
                );
            },
            None => {},
        }
    }
}

/// Each swap of a rotation promotes a validator that stood by before the
/// rotation for one that was active before it and has strictly less voting
/// power; the swap is reported by the keys of the two; and the promoted
/// validator is active when the rotation is over.
pub proof fn law_rotation_swaps_are_sound(m: Seq<Member>, cap: nat)
    ensures
        swaps_of(m).len() == swap_steps(m).len(),
        forall|k: int| 0 <= k < swap_steps(m).len() ==> swap_is_sound(m, rotated(m, cap), k),
{
    lemma_swaps_sound(m);
    let swapped = after_swaps(m);
    assert forall|k: int| 0 <= k < swap_steps(m).len() implies swap_is_sound(
        m,
        rotated(m, cap),
        k,
    ) by {
        assert(swap_is_sound(m, swapped, k));
        if active_members(swapped) < cap {
            lemma_fill_keeps_active(
                swapped,
                (cap - active_members(swapped)) as nat,
                swap_steps(m)[k].0,
            );
        }
    }
}

/// A ranking of validators with different keys is strict: each comes
/// strictly before every later one, by voting power and then by key.
pub proof fn law_ranking_is_strict(s: Seq<RankedValidator>)
    requires
        ranked_in_order(s),
        forall|i: int, j: int|
            0 <= i < j < s.len() ==> (#[trigger] s[i]).pubkey@ != (#[trigger] s[j]).pubkey@,
    ensures
        forall|i: int, j: int|
            0 <= i < j < s.len() ==> ranked_before(#[trigger] s[i], #[trigger] s[j]),
{
    assert forall|i: int, j: int| 0 <= i < j < s.len() implies ranked_before(
        #[trigger] s[i],
        #[trigger] s[j],
    ) by {
        assert(!ranked_before(s[j], s[i]));
        lemma_lex_total(s[i].pubkey@, s[j].pubkey@);
    }
}

} // verus!
