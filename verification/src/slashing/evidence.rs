//! The pool of evidence, in which each piece is held once.

use vstd::prelude::*;
use vstd::string::StringExecFns;
use crate::keymap::KeyMap;
use crate::slashing::types::{
    EvidenceRecord,
    EvidenceView,
    SlashingError,
    SlashingResult,
    evidence_hash,
};

verus! {

/// The evidence among the first `n` entries that has not been processed.
pub open spec fn unprocessed_upto(entries: Seq<([u8; 32], EvidenceRecord)>, n: int) -> Seq<
    EvidenceView,
>
    decreases n,
{
    if n <= 0 {
        Seq::<EvidenceView>::empty()
    } else {
        let found = unprocessed_upto(entries, n - 1);
        if entries[n - 1].1.processed {
            found
        } else {
            found.push(entries[n - 1].1@)
        }
    }
}

/// The views of a sequence of references to evidence.
pub open spec fn referenced_views(records: Seq<&EvidenceRecord>) -> Seq<EvidenceView> {
    Seq::new(records.len(), |i: int| records[i]@)
}

/// The evidence that was submitted, by its hash.
#[derive(Debug, Clone)]
pub struct EvidencePool {
    records: KeyMap<EvidenceRecord>,
}

impl EvidencePool {
    /// The evidence with its hashes, in ascending order of the hashes.
    pub closed spec fn entries(self) -> Seq<([u8; 32], EvidenceRecord)> {
        self.records.entries()
    }

    /// The evidence by its hash.
    pub closed spec fn records(self) -> Map<Seq<u8>, EvidenceRecord> {
        self.records@
    }

    pub closed spec fn wf(self) -> bool {
        self.records.wf()
    }

    /// Whether every piece of evidence has been processed.
    pub open spec fn all_processed(self) -> bool {
        forall|i: int| 0 <= i < self.entries().len() ==> (#[trigger] self.entries()[i]).1.processed
    }

    /// The evidence that has not been processed, in ascending order of the hashes.
    pub open spec fn pending(self) -> Seq<EvidenceView> {
        unprocessed_upto(self.entries(), self.entries().len() as int)
    }

    /// An empty pool.
    pub fn new() -> (pool: Self)
        ensures
            pool.wf(),
            pool.entries().len() == 0,
            pool.records() == Map::<Seq<u8>, EvidenceRecord>::empty(),
    {
        let pool = EvidencePool { records: KeyMap::new() };
        assert(pool.records() =~= Map::<Seq<u8>, EvidenceRecord>::empty());
        pool
    }

    /// Takes in a piece of evidence and returns its hash. Fails, and
    /// changes nothing, for evidence without data and for evidence whose
    /// hash is held already.
    pub fn submit_evidence(&mut self, evidence: EvidenceRecord) -> (r: SlashingResult<[u8; 32]>)
        requires
            old(self).wf(),
        ensures
            final(self).wf(),
            match r {
                Ok(hash) => {
                    &&& evidence.data@.len() > 0
                    &&& hash@ == evidence_hash(evidence@)
                    &&& !old(self).records().dom().contains(hash@)
                    &&& final(self).records() == old(self).records().insert(hash@, evidence)
                    &&& final(self).entries().len() == old(self).entries().len() + 1
                },
                Err(error) => {
                    &&& final(self).records() == old(self).records()
                    &&& final(self).entries() == old(self).entries()
                    &&& if evidence.data@.len() == 0 {
                        error matches SlashingError::InvalidEvidence(text) && text@
                            == "evidence data must not be empty"@
                    } else {
                        error == SlashingError::DuplicateEvidence && old(
                            self,
                        ).records().dom().contains(evidence_hash(evidence@))
                    }
                },
            },
    {
        if evidence.data.len() == 0 {
            return Err(
                SlashingError::InvalidEvidence(String::from_str("evidence data must not be empty")),
            );
        }
        let hash = evidence.hash();
        if self.records.contains_key(&hash) {
            return Err(SlashingError::DuplicateEvidence);
        }
        self.records.insert(hash, evidence);
        Ok(hash)
    }

    /// The evidence that has not been processed, in ascending order of the hashes.
    pub fn get_pending_evidence(&self) -> (pending: Vec<&EvidenceRecord>)
        ensures
            referenced_views(pending@) == self.pending(),
    {
        let ghost entries = self.records.entries();
        let mut pending: Vec<&EvidenceRecord> = Vec::new();
        let mut i: usize = 0;
        proof {
            assert(referenced_views(pending@) =~= unprocessed_upto(entries, 0));
        }
        while i < self.records.len()
            invariant
                entries == self.records.entries(),
                i <= entries.len(),
                referenced_views(pending@) == unprocessed_upto(entries, i as int),
            decreases entries.len() - i,
        {
            let record = self.records.value_at(i);
            if !record.processed {
                let ghost before = pending@;
                pending.push(record);
                proof {
                    assert(referenced_views(pending@) =~= referenced_views(before).push(record@));
                }
            }
            i += 1;
        }
        pending
    }

    /// Marks the evidence with the hash `hash` as processed. Returns
    /// whether the pool holds such evidence.
    pub fn mark_processed(&mut self, hash: &[u8; 32]) -> (found: bool)
        requires
            old(self).wf(),
        ensures
            final(self).wf(),
            found == old(self).records().dom().contains(hash@),
            final(self).entries().len() == old(self).entries().len(),
            found ==> final(self).records().dom() == old(self).records().dom() && final(self).records()[hash@]@ == (EvidenceView {
                processed: true,
                ..old(self).records()[hash@]@
            }) && forall|other: Seq<u8>|
                other != hash@ && old(self).records().dom().contains(other) ==> final(self).records()[other] == old(self).records()[other],
            !found ==> final(self).records() == old(self).records() && final(self).entries()
                == old(self).entries(),
    {
        let record = match self.records.get(hash) {
            Some(record) => record.clone(),
            None => {
                return false;
            },
        };
        let ghost before = self.records@;
        self.records.insert(
            *hash,
            EvidenceRecord {
                offense: record.offense,
                offender: record.offender,
                height: record.height,
                data: record.data,
                processed: true,
            },
        );
        proof {
            assert(self.records@.dom() =~= before.dom());
        }
        true
    }

    /// The evidence with the hash `hash`.
    pub fn get(&self, hash: &[u8; 32]) -> (r: Option<&EvidenceRecord>)
        requires
            self.wf(),
        ensures
            r.is_some() == self.records().dom().contains(hash@),
            r matches Some(record) ==> *record == self.records()[hash@],
    {
        self.records.get(hash)
    }

    /// The evidence at position `i` in ascending order of the hashes.
    pub fn record_at(&self, i: usize) -> (record: &EvidenceRecord)
        requires
            i < self.entries().len(),
        ensures
            *record == self.entries()[i as int].1,
    {
        self.records.value_at(i)
    }

    /// Marks the evidence at position `i` as processed.
    pub fn mark_processed_at(&mut self, i: usize)
        requires
            old(self).wf(),
            i < old(self).entries().len(),
        ensures
            final(self).wf(),
            final(self).entries().len() == old(self).entries().len(),
            final(self).entries()[i as int].0 == old(self).entries()[i as int].0,
            final(self).entries()[i as int].1@ == (EvidenceView {
                processed: true,
                ..old(self).entries()[i as int].1@
            }),
            forall|j: int|
                0 <= j < old(self).entries().len() && j != i ==> final(self).entries()[j] == old(
                    self,
                ).entries()[j],
    {
        let record = self.records.value_at(i).clone();
        self.records.replace_at(
            i,
            EvidenceRecord {
                offense: record.offense,
                offender: record.offender,
                height: record.height,
                data: record.data,
                processed: true,
            },
        );
    }

    /// How many pieces of evidence the pool holds.
    pub fn len(&self) -> (n: usize)
        ensures
            n == self.entries().len(),
    {
        self.records.len()
    }

    /// Whether the pool holds no evidence.
    pub fn is_empty(&self) -> (r: bool)
        ensures
            r == (self.entries().len() == 0),
    {
        self.records.len() == 0
    }
}

/// Where every piece of evidence among the first `n` has been processed,
/// none of them is pending.
pub proof fn lemma_nothing_pending(entries: Seq<([u8; 32], EvidenceRecord)>, n: int)
    requires
        0 <= n <= entries.len(),
        forall|i: int| 0 <= i < n ==> (#[trigger] entries[i]).1.processed,
    ensures
        unprocessed_upto(entries, n).len() == 0,
    decreases n,
{
    if n > 0 {
        lemma_nothing_pending(entries, n - 1);
    }
}

impl Default for EvidencePool {
    fn default() -> (pool: Self)
        ensures
            pool.wf(),
            pool.entries().len() == 0,
            pool.records() == Map::<Seq<u8>, EvidenceRecord>::empty(),
    {
        EvidencePool::new()
    }
}

} // verus!
