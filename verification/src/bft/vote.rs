//! Signed votes, and the tally of the votes of one height, round and type.

use vstd::prelude::*;
use vstd::bytes::{spec_u32_to_le_bytes, spec_u64_to_le_bytes};
use crate::bft::types::{BlockHash, Height, Round, ValidatorId, Vote, VoteType, same_optional_hash};
use crate::bytes::{append_bytes, append_u32_le, append_u64_le};
use crate::crypto::{
    ed25519_public_from_secret,
    ed25519_public_key,
    ed25519_sign,
    ed25519_signature,
    ed25519_verifies,
    ed25519_verify,
};
use crate::keys::keys_equal;

verus! {

/// The byte that stands for a vote type in the signed bytes.
pub open spec fn vote_type_tag(vote_type: VoteType) -> u8 {
    match vote_type {
        VoteType::Prevote => 1,
        VoteType::Precommit => 2,
    }
}

/// The canonical bytes that a vote's signature covers: the type tag, the
/// height and the round in little-endian bytes, then 1 and the hash, or 0 for
/// a nil vote.
pub open spec fn vote_sign_bytes(
    vote_type: VoteType,
    height: Height,
    round: Round,
    block_hash: Option<BlockHash>,
) -> Seq<u8> {
    seq![vote_type_tag(vote_type)] + spec_u64_to_le_bytes(height.0) + spec_u32_to_le_bytes(round.0)
        + (match block_hash {
        Some(hash) => seq![1u8] + hash.0@,
        None => seq![0u8],
    })
}

/// Whether a vote's signature is accepted for its canonical bytes under the
/// key of the validator that it names.
pub open spec fn vote_signed(vote: Vote) -> bool {
    ed25519_verifies(
        vote.validator.0@,
        vote_sign_bytes(vote.vote_type, vote.height, vote.round, vote.block_hash),
        vote.signature@,
    )
}

impl Vote {
    /// Makes a vote and signs it with `signing_key`. The vote names the
    /// public key of that secret key, and its signature verifies.
    pub fn new(
        vote_type: VoteType,
        height: Height,
        round: Round,
        block_hash: Option<BlockHash>,
        signing_key: &[u8; 32],
    ) -> (vote: Self)
        ensures
            vote.vote_type == vote_type,
            vote.height == height,
            vote.round == round,
            vote.block_hash == block_hash,
            vote.validator.0@ == ed25519_public_key(signing_key@),
            vote.signature@ == ed25519_signature(
                signing_key@,
                vote_sign_bytes(vote_type, height, round, block_hash),
            ),
            vote_signed(vote),
    {
        let validator = ValidatorId(ed25519_public_from_secret(signing_key));
        let sign_bytes = Self::sign_bytes(vote_type, height, round, &block_hash);
        let signature = ed25519_sign(signing_key, sign_bytes.as_slice());
        Vote { vote_type, height, round, block_hash, validator, signature }
    }

    /// The canonical bytes to sign and to verify.
    pub fn sign_bytes(
        vote_type: VoteType,
        height: Height,
        round: Round,
        block_hash: &Option<BlockHash>,
    ) -> (bytes: Vec<u8>)
        ensures
            bytes@ == vote_sign_bytes(vote_type, height, round, *block_hash),
    {
        let mut buf: Vec<u8> = Vec::new();
        buf.push(
            match vote_type {
                VoteType::Prevote => 1u8,
                VoteType::Precommit => 2u8,
            },
        );
        append_u64_le(&mut buf, height.0);
        append_u32_le(&mut buf, round.0);
        match block_hash {
            Some(hash) => {
                buf.push(1u8);
                append_bytes(&mut buf, hash.0.as_slice());
            },
            None => {
                buf.push(0u8);
            },
        }
        assert(buf@ =~= vote_sign_bytes(vote_type, height, round, *block_hash));
        buf
    }

    /// Whether the signature is accepted under the validator's public key.
    pub fn verify(&self) -> (ok: bool)
        ensures
            ok == vote_signed(*self),
    {
        let sign_bytes = Self::sign_bytes(self.vote_type, self.height, self.round, &self.block_hash);
        ed25519_verify(&self.validator.0, sign_bytes.as_slice(), &self.signature)
    }
}

/// How many of `votes` carry exactly `target` (a hash, or nil).
pub open spec fn count_for(votes: Seq<Vote>, target: Option<BlockHash>) -> nat
    decreases votes.len(),
{
    if votes.len() == 0 {
        0
    } else {
        count_for(votes.drop_last(), target) + (if votes.last().block_hash == target {
            1nat
        } else {
            0nat
        })
    }
}

/// A count is a quorum of `total` validators when it is strictly more than
/// two thirds of them.
pub open spec fn is_quorum_of(count: nat, total: nat) -> bool {
    3 * count > 2 * total
}

/// Whether some vote of `votes` names the validator `validator`.
pub open spec fn has_voted(votes: Seq<Vote>, validator: Seq<u8>) -> bool {
    exists|i: int| 0 <= i < votes.len() && (#[trigger] votes[i]).validator.0@ == validator
}

/// No more votes carry one value than there are votes.
pub proof fn lemma_count_for_bounded(votes: Seq<Vote>, target: Option<BlockHash>)
    ensures
        count_for(votes, target) <= votes.len(),
    decreases votes.len(),
{
    if votes.len() > 0 {
        lemma_count_for_bounded(votes.drop_last(), target);
    }
}

/// The votes for two different values are different votes.
pub proof fn lemma_count_for_disjoint(votes: Seq<Vote>, a: Option<BlockHash>, b: Option<BlockHash>)
    requires
        a != b,
    ensures
        count_for(votes, a) + count_for(votes, b) <= votes.len(),
    decreases votes.len(),
{
    if votes.len() > 0 {
        lemma_count_for_disjoint(votes.drop_last(), a, b);
    }
}

/// A value that some vote count is positive for is carried by some vote.
pub proof fn lemma_count_for_witness(votes: Seq<Vote>, target: Option<BlockHash>) -> (i: int)
    requires
        count_for(votes, target) > 0,
    ensures
        0 <= i < votes.len(),
        votes[i].block_hash == target,
    decreases votes.len(),
{
    if votes.last().block_hash == target {
        votes.len() - 1
    } else {
        lemma_count_for_witness(votes.drop_last(), target)
    }
}

/// The hash of the earliest vote, from position `from` on, whose hash has a
/// quorum among `votes` in a set of `total` validators.
pub open spec fn first_quorum(votes: Seq<Vote>, total: nat, from: int) -> Option<BlockHash>
    decreases votes.len() - from,
{
    if from < 0 || from >= votes.len() {
        None
    } else {
        match votes[from].block_hash {
            Some(hash) => if is_quorum_of(count_for(votes, Some(hash)), total) {
                Some(hash)
            } else {
                first_quorum(votes, total, from + 1)
            },
            None => first_quorum(votes, total, from + 1),
        }
    }
}

/// `first_quorum` finds a hash with a quorum whenever a vote from `from` on
/// carries one, and only such a hash.
pub proof fn lemma_first_quorum(votes: Seq<Vote>, total: nat, from: int)
    requires
        0 <= from <= votes.len(),
    ensures
        first_quorum(votes, total, from) matches Some(hash) ==> is_quorum_of(
            count_for(votes, Some(hash)),
            total,
        ),
        first_quorum(votes, total, from) is None ==> forall|i: int|
            from <= i < votes.len() ==> match (#[trigger] votes[i]).block_hash {
                Some(hash) => !is_quorum_of(count_for(votes, Some(hash)), total),
                None => true,
            },
    decreases votes.len() - from,
{
    if from < votes.len() {
        lemma_first_quorum(votes, total, from + 1);
    }
}

/// The accepted votes of one height, round and vote type.
#[derive(Debug, Clone)]
pub struct VoteSet {
    pub vote_type: VoteType,
    pub height: Height,
    pub round: Round,
    /// How many validators the current set has.
    pub total_validators: usize,
    /// The accepted votes, in the order in which they came.
    pub votes: Vec<Vote>,
}

impl VoteSet {
    /// The accepted votes, in the order in which they came.
    pub open spec fn votes(self) -> Seq<Vote> {
        self.votes@
    }

    /// Every accepted vote is of this set's height, round and type and is
    /// signed, and no validator has two votes in the set.
    pub open spec fn wf(self) -> bool {
        &&& forall|i: int|
            0 <= i < self.votes().len() ==> {
                &&& (#[trigger] self.votes()[i]).vote_type == self.vote_type
                &&& self.votes()[i].height == self.height
                &&& self.votes()[i].round == self.round
                &&& vote_signed(self.votes()[i])
            }
        &&& forall|i: int, j: int|
            0 <= i < j < self.votes().len() ==> (#[trigger] self.votes()[i]).validator.0@ != (
            #[trigger] self.votes()[j]).validator.0@
    }

    /// Whether `vote` would be admitted: it is of this set's type, height and
    /// round, its signature verifies, and its validator has not voted here.
    pub open spec fn admits(self, vote: Vote) -> bool {
        &&& vote.vote_type == self.vote_type
        &&& vote.height == self.height
        &&& vote.round == self.round
        &&& vote_signed(vote)
        &&& !has_voted(self.votes(), vote.validator.0@)
    }

    /// Whether strictly more than two thirds of the validators voted for `hash`.
    pub open spec fn quorum_for(self, hash: BlockHash) -> bool {
        is_quorum_of(count_for(self.votes(), Some(hash)), self.total_validators as nat)
    }

    /// Whether strictly more than two thirds of the validators voted nil.
    pub open spec fn quorum_for_nil(self) -> bool {
        is_quorum_of(count_for(self.votes(), None), self.total_validators as nat)
    }

    /// Whether strictly more than two thirds of the validators voted at all.
    pub open spec fn two_thirds_any(self) -> bool {
        is_quorum_of(self.votes().len(), self.total_validators as nat)
    }

    /// The hash that has a quorum, if one has: that of the earliest vote
    /// whose hash has one.
    pub open spec fn quorum_choice(self) -> Option<BlockHash> {
        first_quorum(self.votes(), self.total_validators as nat, 0)
    }

    /// `quorum_choice` is a hash with a quorum, and is there whenever any
    /// hash has a quorum.
    pub proof fn lemma_quorum_choice(self)
        ensures
            self.quorum_choice() matches Some(hash) ==> self.quorum_for(hash),
            self.quorum_choice() is None ==> forall|hash: BlockHash| !self.quorum_for(hash),
    {
        lemma_first_quorum(self.votes(), self.total_validators as nat, 0);
        if self.quorum_choice() is None {
            assert forall|hash: BlockHash| !self.quorum_for(hash) by {
                if self.quorum_for(hash) {
                    let w = lemma_count_for_witness(self.votes(), Some(hash));
                    assert(self.votes()[w].block_hash == Some(hash));
                }
            }
        }
    }

    pub fn new(vote_type: VoteType, height: Height, round: Round, total_validators: usize) -> (set:
        Self)
        ensures
            set.vote_type == vote_type,
            set.height == height,
            set.round == round,
            set.total_validators == total_validators,
            set.votes() == Seq::<Vote>::empty(),
            set.wf(),
    {
        VoteSet { vote_type, height, round, total_validators, votes: Vec::new() }
    }

    /// Admits `vote` if its type, height and round are this set's, its
    /// signature verifies and its validator has not voted here yet. Returns
    /// whether the vote was added; a vote that is not admitted changes nothing.
    pub fn add_vote(&mut self, vote: Vote) -> (added: bool)
        ensures
            added == old(self).admits(vote),
            final(self).votes() == (if added {
                old(self).votes().push(vote)
            } else {
                old(self).votes()
            }),
            final(self).vote_type == old(self).vote_type,
            final(self).height == old(self).height,
            final(self).round == old(self).round,
            final(self).total_validators == old(self).total_validators,
            old(self).wf() ==> final(self).wf(),
    {
        if vote.vote_type != self.vote_type || vote.height.0 != self.height.0 || vote.round.0
            != self.round.0 {
            return false;
        }
        if !vote.verify() {
            return false;
        }
        let mut i: usize = 0;
        while i < self.votes.len()
            invariant
                i <= self.votes@.len(),
                forall|j: int|
                    0 <= j < i ==> (#[trigger] self.votes@[j]).validator.0@ != vote.validator.0@,
            decreases self.votes@.len() - i,
        {
            if keys_equal(&self.votes[i].validator.0, &vote.validator.0) {
                return false;
            }
            i += 1;
        }
        self.votes.push(vote);
        true
    }

    /// How many votes of the set carry exactly `target`.
    fn tally(&self, target: &Option<BlockHash>) -> (count: usize)
        ensures
            count == count_for(self.votes(), *target),
    {
        let mut count: usize = 0;
        let mut i: usize = 0;
        while i < self.votes.len()
            invariant
                i <= self.votes@.len(),
                count <= i,
                count == count_for(self.votes@.subrange(0, i as int), *target),
            decreases self.votes@.len() - i,
        {
            proof {
                assert(self.votes@.subrange(0, i + 1).drop_last() =~= self.votes@.subrange(
                    0,
                    i as int,
                ));
            }
            if same_optional_hash(&self.votes[i].block_hash, target) {
                count += 1;
            }
            i += 1;
        }
        proof {
            assert(self.votes@.subrange(0, i as int) =~= self.votes@);
        }
        count
    }

    /// Whether `count` is strictly more than two thirds of the validators.
    fn is_quorum(&self, count: usize) -> (r: bool)
        ensures
            r == is_quorum_of(count as nat, self.total_validators as nat),
    {
        let votes: u128 = count as u128;
        let total: u128 = self.total_validators as u128;
        votes * 3 > total * 2
    }

    /// Whether strictly more than two thirds of the validators voted for
    /// exactly `block_hash`.
    pub fn has_quorum_for(&self, block_hash: &BlockHash) -> (r: bool)
        ensures
            r == self.quorum_for(*block_hash),
            r ==> 3 * self.votes().len() > 2 * self.total_validators,
    {
        let count = self.tally(&Some(*block_hash));
        proof {
            lemma_count_for_bounded(self.votes(), Some(*block_hash));
        }
        self.is_quorum(count)
    }

    /// Whether strictly more than two thirds of the validators voted nil.
    pub fn has_quorum_for_nil(&self) -> (r: bool)
        ensures
            r == self.quorum_for_nil(),
    {
        let count = self.tally(&None);
        self.is_quorum(count)
    }

    /// Some hash that has a quorum, if any has: the hash of the earliest
    /// vote whose hash has one.
    pub fn quorum_block(&self) -> (r: Option<BlockHash>)
        ensures
            r == self.quorum_choice(),
            r matches Some(hash) ==> self.quorum_for(hash),
            r is None ==> forall|hash: BlockHash| !self.quorum_for(hash),
    {
        proof {
            self.lemma_quorum_choice();
        }
        let mut i: usize = 0;
        while i < self.votes.len()
            invariant
                i <= self.votes@.len(),
                self.quorum_choice() == first_quorum(
                    self.votes(),
                    self.total_validators as nat,
                    i as int,
                ),
            decreases self.votes@.len() - i,
        {
            match self.votes[i].block_hash {
                Some(hash) => {
                    if self.has_quorum_for(&hash) {
                        return Some(hash);
                    }
                },
                None => {},
            }
            i += 1;
        }
        None
    }

    /// Whether strictly more than two thirds of the validators have voted,
    /// whatever for.
    pub fn has_two_thirds_any(&self) -> (r: bool)
        ensures
            r == self.two_thirds_any(),
    {
        self.is_quorum(self.votes.len())
    }

    /// How many votes the set holds.
    pub fn count(&self) -> (n: usize)
        ensures
            n == self.votes().len(),
    {
        self.votes.len()
    }
}

/// A quorum for a hash takes more than two thirds of the validators' votes:
/// with `c` votes in a set of `n` validators, `3c > 2n`.
pub proof fn law_quorum_needs_two_thirds(set: VoteSet, hash: BlockHash)
    requires
        set.quorum_for(hash),
    ensures
        3 * set.votes().len() > 2 * set.total_validators,
        3 * count_for(set.votes(), Some(hash)) > 2 * set.total_validators,
{
    lemma_count_for_bounded(set.votes(), Some(hash));
}

/// Where no more votes were cast than there are validators, two values
/// cannot both have a quorum: at most one hash can be decided in a round.
pub proof fn law_quorum_value_unique(set: VoteSet, a: Option<BlockHash>, b: Option<BlockHash>)
    requires
        set.votes().len() <= set.total_validators,
        is_quorum_of(count_for(set.votes(), a), set.total_validators as nat),
        is_quorum_of(count_for(set.votes(), b), set.total_validators as nat),
    ensures
        a == b,
{
    if a != b {
        lemma_count_for_disjoint(set.votes(), a, b);
    }
}

} // verus!
