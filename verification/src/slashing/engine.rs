//! The slashing engine: evidence is turned into slashes of the offender's
//! own stake, which go to the treasury, and the offender is jailed.

use vstd::prelude::*;
use vstd::string::StringSliceAdditionalSpecFns;
use crate::keymap::KeyMap;
use crate::keys::PublicKey;
use crate::slashing::evidence::{EvidencePool, lemma_nothing_pending};
use crate::slashing::types::{
    EvidenceRecord,
    EvidenceView,
    SlashEvent,
    SlashingConfig,
    SlashingError,
    SlashingOffense,
    SlashingResult,
    evidence_hash,
};
use crate::staking::pool::{StakingPool, can_unstake, stakes_after_unstake};
use crate::staking::types::StakeEntry;
use crate::validator_set::manager::ValidatorSetManager;
use crate::validator_set::types::{ValidatorInfo, ValidatorStatus};

verus! {

/// The part of a stake that `bps` basis points slash: the low 64 bits of
/// `stake * bps / 10_000`.
pub open spec fn slashed_part(stake: u64, bps: u64) -> u64 {
    (((stake as nat * bps as nat) / 10_000) % 0x1_0000_0000_0000_0000) as u64
}

/// A slash event as plain values.
pub struct SlashEventView {
    pub offender: Seq<u8>,
    pub offense: SlashingOffense,
    pub slash_amount: u64,
    pub height: u64,
    pub evidence_hash: Seq<u8>,
}

/// A slash event as plain values.
pub open spec fn event_view(event: SlashEvent) -> SlashEventView {
    SlashEventView {
        offender: event.offender@,
        offense: event.offense,
        slash_amount: event.slash_amount,
        height: event.height,
        evidence_hash: event.evidence_hash@,
    }
}

/// The events of a sequence as plain values.
pub open spec fn event_views(events: Seq<SlashEvent>) -> Seq<SlashEventView> {
    Seq::new(events.len(), |i: int| event_view(events[i]))
}

/// What slashing reads and changes: the validators, the stakes with their
/// total and the epoch of the pool, and the treasury.
pub struct World {
    pub validators: Map<Seq<u8>, ValidatorInfo>,
    pub stakes: Seq<StakeEntry>,
    pub staked_total: u64,
    pub epoch: u64,
    pub treasury: u64,
}

/// The amount that a piece of evidence slashes: nothing for an offender who
/// is not registered, and nothing where the slashed part of the stake is zero.
pub open spec fn slash_for(config: SlashingConfig, w: World, evidence: EvidenceView) -> Option<u64> {
    if !w.validators.dom().contains(evidence.offender) {
        None
    } else {
        let amount = slashed_part(
            w.validators[evidence.offender].stake,
            config.bps_for(evidence.offense),
        );
        if amount == 0 {
            None
        } else {
            Some(amount)
        }
    }
}

/// The world after the evidence was processed. Where it slashes, the
/// recorded stake of the offender falls by the amount, but not below zero;
/// the amount is taken out of the offender's own unlocked stakes in the
/// pool where they cover it; the treasury grows by the amount, up to the
/// largest 64-bit number; and the offender is jailed.
pub open spec fn world_after(config: SlashingConfig, w: World, evidence: EvidenceView) -> World {
    match slash_for(config, w, evidence) {
        None => w,
        Some(amount) => {
            let info = w.validators[evidence.offender];
            let taken = can_unstake(w.stakes, evidence.offender, w.epoch, amount);
            World {
                validators: w.validators.insert(
                    evidence.offender,
                    ValidatorInfo {
                        stake: if info.stake >= amount {
                            (info.stake - amount) as u64
                        } else {
                            0
                        },
                        status: ValidatorStatus::Jailed,
                        ..info
                    },
                ),
                stakes: if taken {
                    stakes_after_unstake(w.stakes, evidence.offender, w.epoch, amount as nat)
                } else {
                    w.stakes
                },
                staked_total: if taken {
                    (w.staked_total - amount) as u64
                } else {
                    w.staked_total
                },
                epoch: w.epoch,
                treasury: if w.treasury + amount <= u64::MAX {
                    (w.treasury + amount) as u64
                } else {
                    u64::MAX
                },
            }
        },
    }
}

/// The event of a slash of `amount` for `evidence`.
pub open spec fn event_for(evidence: EvidenceView, amount: u64) -> SlashEventView {
    SlashEventView {
        offender: evidence.offender,
        offense: evidence.offense,
        slash_amount: amount,
        height: evidence.height,
        evidence_hash: evidence_hash(evidence),
    }
}

/// Whether the evidence at `i` is still to be processed.
pub open spec fn is_pending(entries: Seq<([u8; 32], EvidenceRecord)>, i: int) -> bool {
    !entries[i].1.processed
}

/// The world after the pending evidence among the first `n` entries was
/// processed in order.
pub open spec fn world_after_all(
    config: SlashingConfig,
    w: World,
    entries: Seq<([u8; 32], EvidenceRecord)>,
    n: int,
) -> World
    decreases n,
{
    if n <= 0 {
        w
    } else {
        let before = world_after_all(config, w, entries, n - 1);
        if is_pending(entries, n - 1) {
            world_after(config, before, entries[n - 1].1@)
        } else {
            before
        }
    }
}

/// The events of the slashes that the pending evidence among the first `n`
/// entries led to.
pub open spec fn events_after_all(
    config: SlashingConfig,
    w: World,
    entries: Seq<([u8; 32], EvidenceRecord)>,
    n: int,
) -> Seq<SlashEventView>
    decreases n,
{
    if n <= 0 {
        Seq::<SlashEventView>::empty()
    } else {
        let events = events_after_all(config, w, entries, n - 1);
        let before = world_after_all(config, w, entries, n - 1);
        if is_pending(entries, n - 1) {
            match slash_for(config, before, entries[n - 1].1@) {
                Some(amount) => events.push(event_for(entries[n - 1].1@, amount)),
                None => events,
            }
        } else {
            events
        }
    }
}

/// The slashing engine.
#[derive(Debug, Clone)]
pub struct SlashingEngine {
    config: SlashingConfig,
    evidence_pool: EvidencePool,
    slash_history: KeyMap<Vec<SlashEvent>>,
    /// What was slashed so far.
    pub treasury: u64,
}

impl SlashingEngine {
    /// The configuration.
    pub closed spec fn spec_config(self) -> SlashingConfig {
        self.config
    }

    /// The pool of evidence.
    pub closed spec fn evidence(self) -> EvidencePool {
        self.evidence_pool
    }

    /// What was slashed so far, at most the largest 64-bit number.
    pub closed spec fn spec_treasury(self) -> u64 {
        self.treasury
    }

    /// The slashes of the validator `key`, the earliest first.
    pub closed spec fn history_of(self, key: Seq<u8>) -> Seq<SlashEvent> {
        if self.slash_history.contains(key) {
            self.slash_history.value(key)@
        } else {
            Seq::<SlashEvent>::empty()
        }
    }

    pub closed spec fn wf(self) -> bool {
        self.evidence_pool.wf() && self.slash_history.wf()
    }

    /// The world that the engine works on with a validator set and a pool.
    pub open spec fn world(self, validator_set: ValidatorSetManager, pool: StakingPool) -> World {
        World {
            validators: validator_set@,
            stakes: pool.stakes(),
            staked_total: pool.state().total_staked,
            epoch: pool.state().current_epoch,
            treasury: self.spec_treasury(),
        }
    }

    /// An engine with the default configuration.
    pub fn new() -> (engine: Self)
        ensures
            engine.wf(),
            engine.spec_config() == (SlashingConfig {
                double_sign_slash_bps: 500,
                downtime_slash_bps: 100,
                invalid_block_slash_bps: 1000,
                downtime_threshold: 100,
            }),
            engine.spec_treasury() == 0,
            engine.evidence().entries().len() == 0,
            forall|key: Seq<u8>| engine.history_of(key).len() == 0,
    {
        SlashingEngine {
            config: SlashingConfig::default(),
            evidence_pool: EvidencePool::new(),
            slash_history: KeyMap::new(),
            treasury: 0,
        }
    }

    /// An engine with the configuration `config`.
    pub fn with_config(config: SlashingConfig) -> (engine: Self)
        ensures
            engine.wf(),
            engine.spec_config() == config,
            engine.spec_treasury() == 0,
            engine.evidence().entries().len() == 0,
            forall|key: Seq<u8>| engine.history_of(key).len() == 0,
    {
        SlashingEngine {
            config,
            evidence_pool: EvidencePool::new(),
            slash_history: KeyMap::new(),
            treasury: 0,
        }
    }

    /// Takes in a piece of evidence and returns its hash.
    pub fn submit_evidence(&mut self, evidence: EvidenceRecord) -> (r: SlashingResult<[u8; 32]>)
        requires
            old(self).wf(),
        ensures
            final(self).wf(),
            final(self).spec_config() == old(self).spec_config(),
            final(self).spec_treasury() == old(self).spec_treasury(),
            forall|key: Seq<u8>| final(self).history_of(key) == old(self).history_of(key),
            match r {
                Ok(hash) => {
                    &&& evidence.data@.len() > 0
                    &&& hash@ == evidence_hash(evidence@)
                    &&& !old(self).evidence().records().dom().contains(hash@)
                    &&& final(self).evidence().records() == old(self).evidence().records().insert(
                        hash@,
                        evidence,
                    )
                },
                Err(error) => {
                    &&& final(self).evidence().records() == old(self).evidence().records()
                    &&& final(self).evidence().entries() == old(self).evidence().entries()
                    &&& if evidence.data@.len() == 0 {
                        error is InvalidEvidence
                    } else {
                        error == SlashingError::DuplicateEvidence
                    }
                },
            },
    {
        self.evidence_pool.submit_evidence(evidence)
    }

    /// Adds an event to the history of its offender.
    fn record_event(&mut self, event: SlashEvent)
        requires
            old(self).wf(),
        ensures
            final(self).wf(),
            final(self).spec_config() == old(self).spec_config(),
            final(self).evidence() == old(self).evidence(),
            final(self).spec_treasury() == old(self).spec_treasury(),
            final(self).history_of(event.offender@) == old(self).history_of(event.offender@).push(
                event,
            ),
            forall|key: Seq<u8>|
                key != event.offender@ ==> final(self).history_of(key) == old(self).history_of(key),
    {
        let ghost before = self.slash_history@;
        let mut list = match self.slash_history.remove(&event.offender) {
            Some(list) => list,
            None => Vec::new(),
        };
        list.push(event);
        self.slash_history.insert(event.offender, list);
        proof {
            let after = self.slash_history@;
            assert(after == before.remove(event.offender@).insert(event.offender@, list));
            assert forall|key: Seq<u8>| key != event.offender@ implies self.history_of(key) == old(
                self,
            ).history_of(key) by {
                assert(after.dom().contains(key) == before.dom().contains(key));
                if before.dom().contains(key) {
                    assert(after[key] == before[key]);
                }
            }
            assert(after.dom().contains(event.offender@));
            assert(after[event.offender@] == list);
        }
    }

    /// Processes one piece of evidence: the slash of the offender's own
    /// stake goes to the treasury, and the offender is jailed. Nothing
    /// happens for an offender who is not registered and for a slash of
    /// zero. Delegations are never touched.
    fn process_single_evidence(
        &mut self,
        evidence: &EvidenceRecord,
        validator_set: &mut ValidatorSetManager,
        staking_pool: &mut StakingPool,
    ) -> (r: Option<SlashEvent>)
        requires
            old(self).wf(),
            old(validator_set).wf(),
            old(staking_pool).wf(),
        ensures
            final(self).wf(),
            final(validator_set).wf(),
            final(staking_pool).wf(),
            final(self).spec_config() == old(self).spec_config(),
            final(self).evidence() == old(self).evidence(),
            final(validator_set).state().config == old(validator_set).state().config,
            final(validator_set).state().current_epoch == old(
                validator_set,
            ).state().current_epoch,
            old(validator_set).within_cap() ==> final(validator_set).within_cap(),
            final(staking_pool).delegations() == old(staking_pool).delegations(),
            final(self).world(*final(validator_set), *final(staking_pool)) == world_after(
                old(self).spec_config(),
                old(self).world(*old(validator_set), *old(staking_pool)),
                evidence@,
            ),
            match slash_for(
                old(self).spec_config(),
                old(self).world(*old(validator_set), *old(staking_pool)),
                evidence@,
            ) {
                Some(amount) => r matches Some(event) && event_view(event) == event_for(
                    evidence@,
                    amount,
                ) && final(self).history_of(evidence.offender@) == old(self).history_of(
                    evidence.offender@,
                ).push(event) && forall|key: Seq<u8>|
                    key != evidence.offender@ ==> final(self).history_of(key) == old(
                        self,
                    ).history_of(key),
                None => r is None && forall|key: Seq<u8>|
                    final(self).history_of(key) == old(self).history_of(key),
            },
    {
        let validator = match validator_set.get_validator(&evidence.offender) {
            Some(info) => *info,
            None => {
                return None;
            },
        };
        let slash_bps = self.config.slash_bps(&evidence.offense);
        let own_stake = validator.stake;
        assert((own_stake as u128) * (slash_bps as u128) <= 0xffff_ffff_ffff_ffff
            * 0xffff_ffff_ffff_ffff) by (nonlinear_arith)
            requires
                own_stake <= 0xffff_ffff_ffff_ffff,
                slash_bps <= 0xffff_ffff_ffff_ffff,
        ;
        let scaled: u128 = (own_stake as u128) * (slash_bps as u128) / 10_000;
        let slash_amount: u64 = #[verifier::truncate]
        (scaled as u64);
        assert(slash_amount == scaled % 0x1_0000_0000_0000_0000) by (bit_vector)
            requires
                slash_amount == scaled as u64,
        ;
        if slash_amount == 0 {
            return None;
        }
        let new_stake = own_stake.saturating_sub(slash_amount);
        let ghost validators_before = validator_set@;
        let _ = validator_set.update_stake(&evidence.offender, new_stake);
        let _ = staking_pool.unstake(evidence.offender, slash_amount);
        self.treasury = self.treasury.saturating_add(slash_amount);
        let _ = validator_set.jail(&evidence.offender);
        proof {
            assert(validator_set@ =~= validators_before.insert(
                evidence.offender@,
                ValidatorInfo {
                    stake: new_stake,
                    status: ValidatorStatus::Jailed,
                    ..validators_before[evidence.offender@]
                },
            ));
        }
        let event = SlashEvent {
            offender: evidence.offender,
            offense: evidence.offense,
            slash_amount,
            height: evidence.height,
            evidence_hash: evidence.hash(),
        };
        self.record_event(event);
        Some(event)
    }

    /// Processes all evidence that has not been processed, in ascending
    /// order of the hashes, and marks it as processed. Returns the slashes
    /// that were made.
    pub fn process_all_evidence(
        &mut self,
        validator_set: &mut ValidatorSetManager,
        staking_pool: &mut StakingPool,
    ) -> (events: Vec<SlashEvent>)
        requires
            old(self).wf(),
            old(validator_set).wf(),
            old(staking_pool).wf(),
        ensures
            final(self).wf(),
            final(validator_set).wf(),
            final(staking_pool).wf(),
            final(self).spec_config() == old(self).spec_config(),
            final(validator_set).state().config == old(validator_set).state().config,
            final(validator_set).state().current_epoch == old(
                validator_set,
            ).state().current_epoch,
            old(validator_set).within_cap() ==> final(validator_set).within_cap(),
            final(staking_pool).delegations() == old(staking_pool).delegations(),
            final(self).evidence().entries().len() == old(self).evidence().entries().len(),
            final(self).evidence().all_processed(),
            final(self).evidence().pending().len() == 0,
            final(self).world(*final(validator_set), *final(staking_pool)) == world_after_all(
                old(self).spec_config(),
                old(self).world(*old(validator_set), *old(staking_pool)),
                old(self).evidence().entries(),
                old(self).evidence().entries().len() as int,
            ),
            event_views(events@) == events_after_all(
                old(self).spec_config(),
                old(self).world(*old(validator_set), *old(staking_pool)),
                old(self).evidence().entries(),
                old(self).evidence().entries().len() as int,
            ),
    {
        let ghost start = self.world(*validator_set, *staking_pool);
        let ghost entries = self.evidence_pool.entries();
        let ghost config = self.config;
        let count: usize = self.evidence_pool.len();
        let mut events: Vec<SlashEvent> = Vec::new();
        let mut i: usize = 0;
        proof {
            assert(event_views(events@) =~= events_after_all(config, start, entries, 0));
        }
        while i < count
            invariant
                i <= count,
                count == entries.len(),
                self.wf(),
                validator_set.wf(),
                staking_pool.wf(),
                self.config == config,
                config == old(self).spec_config(),
                validator_set.state().config == old(validator_set).state().config,
                validator_set.state().current_epoch == old(validator_set).state().current_epoch,
                old(validator_set).within_cap() ==> validator_set.within_cap(),
                staking_pool.delegations() == old(staking_pool).delegations(),
                self.evidence_pool.entries().len() == count,
                forall|j: int| 0 <= j < i ==> (#[trigger] self.evidence_pool.entries()[j]).1.processed,
                forall|j: int|
                    i <= j < count ==> #[trigger] self.evidence_pool.entries()[j] == entries[j],
                self.world(*validator_set, *staking_pool) == world_after_all(
                    config,
                    start,
                    entries,
                    i as int,
                ),
                event_views(events@) == events_after_all(config, start, entries, i as int),
            decreases count - i,
        {
            assert(self.evidence_pool.entries()[i as int] == entries[i as int]);
            if !self.evidence_pool.record_at(i).processed {
                let record = self.evidence_pool.record_at(i).clone();
                let ghost before = events@;
                match self.process_single_evidence(&record, validator_set, staking_pool) {
                    Some(event) => {
                        events.push(event);
                        proof {
                            assert(event_views(events@) =~= event_views(before).push(
                                event_view(event),
                            ));
                        }
                    },
                    None => {},
                }
                self.evidence_pool.mark_processed_at(i);
            }
            i += 1;
        }
        proof {
            lemma_nothing_pending(self.evidence_pool.entries(), count as int);
        }
        events
    }

    /// Slashes a validator without evidence from the pool. Fails, and
    /// changes nothing, for a validator that is not registered, and also
    /// where the slash would be zero.
    pub fn slash_validator(
        &mut self,
        pubkey: &PublicKey,
        offense: SlashingOffense,
        height: u64,
        validator_set: &mut ValidatorSetManager,
        staking_pool: &mut StakingPool,
    ) -> (r: SlashingResult<SlashEvent>)
        requires
            old(self).wf(),
            old(validator_set).wf(),
            old(staking_pool).wf(),
        ensures
            final(self).wf(),
            final(validator_set).wf(),
            final(staking_pool).wf(),
            final(self).spec_config() == old(self).spec_config(),
            final(self).evidence() == old(self).evidence(),
            old(validator_set).within_cap() ==> final(validator_set).within_cap(),
            final(staking_pool).delegations() == old(staking_pool).delegations(),
            final(self).world(*final(validator_set), *final(staking_pool)) == world_after(
                old(self).spec_config(),
                old(self).world(*old(validator_set), *old(staking_pool)),
                direct_evidence(*pubkey, offense, height),
            ),
            match slash_for(
                old(self).spec_config(),
                old(self).world(*old(validator_set), *old(staking_pool)),
                direct_evidence(*pubkey, offense, height),
            ) {
                Some(amount) => r matches Ok(event) && event_view(event) == event_for(
                    direct_evidence(*pubkey, offense, height),
                    amount,
                ) && final(self).history_of(pubkey@) == old(self).history_of(pubkey@).push(event),
                None => r == Err::<SlashEvent, SlashingError>(
                    SlashingError::ValidatorNotFound(*pubkey),
                ),
            },
    {
        let mut data: Vec<u8> = Vec::new();
        let text = "direct_slash";
        let bytes = text.as_bytes();
        let mut i: usize = 0;
        while i < bytes.len()
            invariant
                i <= bytes@.len(),
                data@ == bytes@.subrange(0, i as int),
            decreases bytes@.len() - i,
        {
            data.push(bytes[i]);
            assert(data@ =~= bytes@.subrange(0, i + 1));
            i += 1;
        }
        assert(data@ =~= bytes@);
        let evidence = EvidenceRecord { offense, offender: *pubkey, height, data, processed: false };
        match self.process_single_evidence(&evidence, validator_set, staking_pool) {
            Some(event) => Ok(event),
            None => Err(SlashingError::ValidatorNotFound(*pubkey)),
        }
    }

    /// The slashes of a validator, the earliest first.
    pub fn get_slash_history(&self, pubkey: &PublicKey) -> (history: Vec<SlashEvent>)
        requires
            self.wf(),
        ensures
            history@ == self.history_of(pubkey@),
    {
        match self.slash_history.get(pubkey) {
            Some(list) => list.clone(),
            None => Vec::new(),
        }
    }

    /// The pool of evidence.
    pub fn evidence_pool(&self) -> (pool: &EvidencePool)
        ensures
            *pool == self.evidence(),
    {
        &self.evidence_pool
    }

    /// The configuration.
    pub fn config(&self) -> (config: &SlashingConfig)
        ensures
            *config == self.spec_config(),
    {
        &self.config
    }
}

/// The evidence that stands for a slash without evidence from the pool: its
/// data is the text `direct_slash`.
pub open spec fn direct_evidence(pubkey: PublicKey, offense: SlashingOffense, height: u64) -> EvidenceView {
    EvidenceView {
        offense,
        offender: pubkey@,
        height,
        data: "direct_slash".spec_bytes(),
        processed: false,
    }
}

impl Default for SlashingEngine {
    fn default() -> (engine: Self)
        ensures
            engine.wf(),
            engine.spec_config() == (SlashingConfig {
                double_sign_slash_bps: 500,
                downtime_slash_bps: 100,
                invalid_block_slash_bps: 1000,
                downtime_threshold: 100,
            }),
            engine.spec_treasury() == 0,
            engine.evidence().entries().len() == 0,
            forall|key: Seq<u8>| engine.history_of(key).len() == 0,
    {
        SlashingEngine::new()
    }
}

} // verus!
