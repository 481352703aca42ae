//! The transaction pool: the transactions that wait for a block.

use vstd::prelude::*;
use crate::bft::block::{Transaction, TransactionView, transaction_hash};
use crate::keys::keys_equal;
use crate::mempool::types::{MempoolConfig, MempoolError, PendingTransaction};
use crate::mempool::validation::{
    strictly_signed,
    structural_fault,
    validate_transaction,
    verify_signature,
};

verus! {

/// A pending transaction with its hash.
#[derive(Debug, Clone)]
pub struct PoolEntry {
    pub hash: [u8; 32],
    pub pending: PendingTransaction,
}

/// Whether some entry has the hash `hash`.
pub open spec fn knows_hash(entries: Seq<PoolEntry>, hash: Seq<u8>) -> bool {
    exists|i: int| 0 <= i < entries.len() && (#[trigger] entries[i]).hash@ == hash
}

/// How many of the first `n` entries were sent by `sender`.
pub open spec fn sent_by(entries: Seq<PoolEntry>, sender: Seq<u8>, n: int) -> nat
    decreases n,
{
    if n <= 0 {
        0
    } else {
        sent_by(entries, sender, n - 1) + (if entries[n - 1].pending.tx.from@ == sender {
            1nat
        } else {
            0nat
        })
    }
}

/// Whether `hash` is among `hashes`.
pub open spec fn listed(hashes: Seq<[u8; 32]>, hash: Seq<u8>) -> bool {
    exists|i: int| 0 <= i < hashes.len() && (#[trigger] hashes[i])@ == hash
}

/// The first `n` entries without those whose hash is among `hashes`.
pub open spec fn without_listed(entries: Seq<PoolEntry>, hashes: Seq<[u8; 32]>, n: int) -> Seq<
    PoolEntry,
>
    decreases n,
{
    if n <= 0 {
        Seq::<PoolEntry>::empty()
    } else {
        let kept = without_listed(entries, hashes, n - 1);
        if listed(hashes, entries[n - 1].hash@) {
            kept
        } else {
            kept.push(entries[n - 1])
        }
    }
}

/// Whether the entry at `a` goes before the entry at `b` in the order of the
/// pool: the higher priority first; of two with one priority the one that
/// came in earlier; and of two that are equal in both the one that stands
/// first in the pool.
pub open spec fn goes_before(entries: Seq<PoolEntry>, a: int, b: int) -> bool {
    let x = entries[a].pending;
    let y = entries[b].pending;
    x.fee_priority > y.fee_priority || (x.fee_priority == y.fee_priority && (x.added_at
        < y.added_at || (x.added_at == y.added_at && a < b)))
}

/// Whether `order` lists positions of `entries` in the order of the pool,
/// each after the one before it.
pub open spec fn in_pool_order(entries: Seq<PoolEntry>, order: Seq<int>) -> bool {
    &&& forall|i: int| 0 <= i < order.len() ==> 0 <= #[trigger] order[i] < entries.len()
    &&& forall|i: int, j: int|
        0 <= i < j < order.len() ==> goes_before(entries, #[trigger] order[i], #[trigger] order[j])
}

/// Why the pool refuses a transaction, if it does. The checks come in this
/// order: the transaction is well-formed; its signature verifies; the pool
/// has room; the transaction is not in the pool; its sender has room.
pub enum Refusal {
    Malformed(Seq<char>),
    BadSignature,
    Full,
    Duplicate,
    SenderFull,
}

/// Why a pool with the given entries and limits refuses `tx`.
pub open spec fn refusal(entries: Seq<PoolEntry>, config: MempoolConfig, tx: TransactionView) -> Option<
    Refusal,
> {
    match structural_fault(tx) {
        Some(reason) => Some(Refusal::Malformed(reason)),
        None => if !strictly_signed(tx) {
            Some(Refusal::BadSignature)
        } else if entries.len() >= config.max_size {
            Some(Refusal::Full)
        } else if knows_hash(entries, transaction_hash(tx)) {
            Some(Refusal::Duplicate)
        } else if sent_by(entries, tx.from, entries.len() as int) >= config.max_tx_per_account {
            Some(Refusal::SenderFull)
        } else {
            None
        },
    }
}

/// Whether an error is the one that stands for a refusal.
pub open spec fn error_for(error: MempoolError, refusal: Refusal) -> bool {
    match refusal {
        Refusal::Malformed(reason) => error matches MempoolError::InvalidTransaction(text) && text@
            == reason,
        Refusal::BadSignature => error == MempoolError::InvalidSignature,
        Refusal::Full => error == MempoolError::PoolFull,
        Refusal::Duplicate => error == MempoolError::DuplicateTransaction,
        Refusal::SenderFull => error == MempoolError::PoolFull,
    }
}

/// The transaction pool.
#[derive(Debug, Clone)]
pub struct TransactionPool {
    config: MempoolConfig,
    entries: Vec<PoolEntry>,
}

impl TransactionPool {
    /// The limits of the pool.
    pub closed spec fn spec_config(self) -> MempoolConfig {
        self.config
    }

    /// The pending transactions with their hashes, in the order in which
    /// they came in.
    pub closed spec fn entries(self) -> Seq<PoolEntry> {
        self.entries@
    }

    /// Each entry carries the hash of its transaction, and a priority that
    /// is the amount of the transaction.
    pub open spec fn wf(self) -> bool {
        forall|i: int|
            0 <= i < self.entries().len() ==> (#[trigger] self.entries()[i]).hash@
                == transaction_hash(self.entries()[i].pending.tx@)
    }

    /// An empty pool with the limits `config`.
    pub fn new(config: MempoolConfig) -> (pool: Self)
        ensures
            pool.wf(),
            pool.spec_config() == config,
            pool.entries().len() == 0,
    {
        TransactionPool { config, entries: Vec::new() }
    }

    /// How many pending transactions `sender` has.
    fn count_of(&self, sender: &[u8; 32]) -> (n: usize)
        ensures
            n == sent_by(self.entries(), sender@, self.entries().len() as int),
    {
        let mut count: usize = 0;
        let mut i: usize = 0;
        while i < self.entries.len()
            invariant
                i <= self.entries@.len(),
                count <= i,
                count == sent_by(self.entries@, sender@, i as int),
            decreases self.entries@.len() - i,
        {
            if keys_equal(&self.entries[i].pending.tx.from, sender) {
                count += 1;
            }
            i += 1;
        }
        count
    }

    /// Takes a transaction in, unless it is refused: a refused transaction
    /// changes nothing. An accepted one stands last in the pool, with the
    /// number of transactions that were pending as the time it came in.
    pub fn add_transaction(&mut self, tx: Transaction) -> (r: Result<(), MempoolError>)
        ensures
            final(self).spec_config() == old(self).spec_config(),
            old(self).wf() ==> final(self).wf(),
            match refusal(old(self).entries(), old(self).spec_config(), tx@) {
                Some(why) => r matches Err(error) && error_for(error, why) && final(self).entries()
                    == old(self).entries(),
                None => {
                    &&& r is Ok
                    &&& final(self).entries().len() == old(self).entries().len() + 1
                    &&& final(self).entries().drop_last() == old(self).entries()
                    &&& final(self).entries().last().hash@ == transaction_hash(tx@)
                    &&& final(self).entries().last().pending.tx == tx
                    &&& final(self).entries().last().pending.added_at == old(self).entries().len()
                    &&& final(self).entries().last().pending.fee_priority == tx.amount
                },
            },
    {
        match validate_transaction(&tx) {
            Err(error) => {
                return Err(error);
            },
            Ok(_) => {},
        }
        match verify_signature(&tx) {
            Err(error) => {
                return Err(error);
            },
            Ok(_) => {},
        }
        if self.entries.len() >= self.config.max_size {
            return Err(MempoolError::PoolFull);
        }
        let hash = compute_tx_hash(&tx);
        if self.contains(&hash) {
            return Err(MempoolError::DuplicateTransaction);
        }
        if self.count_of(&tx.from) >= self.config.max_tx_per_account {
            return Err(MempoolError::PoolFull);
        }
        let added_at = self.entries.len() as u64;
        let pending = PendingTransaction::new(tx, added_at);
        let ghost before = self.entries@;
        self.entries.push(PoolEntry { hash, pending });
        proof {
            assert(self.entries@.drop_last() =~= before);
        }
        Ok(())
    }

    /// Removes the transactions with the hashes `tx_hashes`, which were
    /// committed in a block. The others stay in their order.
    pub fn remove_committed(&mut self, tx_hashes: &[[u8; 32]])
        ensures
            final(self).spec_config() == old(self).spec_config(),
            final(self).entries() == without_listed(
                old(self).entries(),
                tx_hashes@,
                old(self).entries().len() as int,
            ),
            old(self).wf() ==> final(self).wf(),
            forall|i: int|
                0 <= i < tx_hashes@.len() ==> !knows_hash(
                    final(self).entries(),
                    (#[trigger] tx_hashes@[i])@,
                ),
    {
        let ghost all = self.entries@;
        let ghost mut done: int = 0;
        let mut i: usize = 0;
        proof {
            assert(self.entries@.subrange(0, 0) =~= without_listed(all, tx_hashes@, 0));
            assert(self.entries@.subrange(0, all.len() as int) =~= all.subrange(
                0,
                all.len() as int,
            ));
        }
        while i < self.entries.len()
            invariant
                self.config == old(self).config,
                all == old(self).entries@,
                i <= self.entries@.len(),
                0 <= done <= all.len(),
                self.entries@.len() - i == all.len() - done,
                self.entries@.subrange(0, i as int) == without_listed(all, tx_hashes@, done),
                self.entries@.subrange(i as int, self.entries@.len() as int) == all.subrange(
                    done,
                    all.len() as int,
                ),
                forall|k: int|
                    0 <= k < i ==> !listed(tx_hashes@, (#[trigger] self.entries@[k]).hash@)
                        && exists|w: int| 0 <= w < all.len() && #[trigger] all[w] == self.entries@[k],
            decreases self.entries@.len() - i,
        {
            let ghost before = self.entries@;
            proof {
                assert(before[i as int] == before.subrange(i as int, before.len() as int)[0]);
                assert(before[i as int] == all[done]);
            }
            let mut found = false;
            let mut j: usize = 0;
            while j < tx_hashes.len()
                invariant
                    j <= tx_hashes@.len(),
                    i < self.entries@.len(),
                    found == (exists|n: int|
                        0 <= n < j && (#[trigger] tx_hashes@[n])@ == self.entries@[i as int].hash@),
                decreases tx_hashes@.len() - j,
            {
                if keys_equal(&tx_hashes[j], &self.entries[i].hash) {
                    found = true;
                }
                j += 1;
            }
            if found {
                self.entries.remove(i);
                proof {
                    assert(self.entries@.subrange(0, i as int) =~= before.subrange(0, i as int));
                    assert forall|n: int| i <= n < self.entries@.len() implies #[trigger] self.entries@[n]
                        == all[done + 1 + n - i] by {
                        assert(before.subrange(i as int, before.len() as int)[n - i + 1]
                            == all.subrange(done, all.len() as int)[n - i + 1]);
                    }
                    assert(self.entries@.subrange(i as int, self.entries@.len() as int)
                        =~= all.subrange(done + 1, all.len() as int));
                    assert forall|k: int| 0 <= k < i implies !listed(
                        tx_hashes@,
                        (#[trigger] self.entries@[k]).hash@,
                    ) && exists|w: int| 0 <= w < all.len() && #[trigger] all[w] == self.entries@[k] by {
                        assert(self.entries@[k] == before[k]);
                        let w = choose|w: int| 0 <= w < all.len() && #[trigger] all[w] == before[k];
                        assert(all[w] == self.entries@[k]);
                    }
                }
            } else {
                proof {
                    assert(self.entries@.subrange(0, i + 1) =~= self.entries@.subrange(
                        0,
                        i as int,
                    ).push(all[done]));
                    assert forall|n: int| i + 1 <= n < self.entries@.len() implies #[trigger] self.entries@[n]
                        == all[done + n - i] by {
                        assert(before.subrange(i as int, before.len() as int)[n - i] == all.subrange(
                            done,
                            all.len() as int,
                        )[n - i]);
                    }
                    assert(self.entries@.subrange(i + 1, self.entries@.len() as int)
                        =~= all.subrange(done + 1, all.len() as int));
                }
                i += 1;
            }
            proof {
                done = done + 1;
            }
        }
        proof {
            assert(self.entries@.subrange(0, i as int) =~= self.entries@);
            assert forall|n: int| 0 <= n < tx_hashes@.len() implies !knows_hash(
                self.entries@,
                (#[trigger] tx_hashes@[n])@,
            ) by {
                if knows_hash(self.entries@, tx_hashes@[n]@) {
                    let k = choose|k: int|
                        0 <= k < self.entries@.len() && (#[trigger] self.entries@[k]).hash@
                            == tx_hashes@[n]@;
                    assert(listed(tx_hashes@, self.entries@[k].hash@));
                }
            }
            if old(self).wf() {
                assert forall|k: int| 0 <= k < self.entries@.len() implies (
                #[trigger] self.entries@[k]).hash@ == transaction_hash(
                    self.entries@[k].pending.tx@,
                ) by {
                    let w = choose|w: int| 0 <= w < all.len() && #[trigger] all[w] == self.entries@[k];
                    assert(old(self).entries()[w].hash@ == transaction_hash(
                        old(self).entries()[w].pending.tx@,
                    ));
                }
            }
        }
    }

    /// Up to `max_count` pending transactions in the order of the pool: the
    /// highest priority first, and of two with one priority the one that
    /// came in earlier.
    pub fn get_pending_ordered(&self, max_count: usize) -> (ordered: Vec<Transaction>)
        ensures
            ordered@.len() == (if max_count <= self.entries().len() {
                max_count as int
            } else {
                self.entries().len() as int
            }),
            exists|order: Seq<int>|
                {
                    &&& order.len() == self.entries().len()
                    &&& in_pool_order(self.entries(), order)
                    &&& forall|i: int|
                        0 <= i < ordered@.len() ==> (#[trigger] ordered@[i])@
                            == self.entries()[order[i]].pending.tx@
                },
    {
        let ghost entries = self.entries@;
        let mut order: Vec<usize> = Vec::new();
        let mut i: usize = 0;
        while i < self.entries.len()
            invariant
                entries == self.entries@,
                i <= entries.len(),
                order@.len() == i,
                forall|k: int| 0 <= k < order@.len() ==> #[trigger] order@[k] < i,
                forall|a: int, b: int|
                    0 <= a < b < order@.len() ==> goes_before(
                        entries,
                        #[trigger] order@[a] as int,
                        #[trigger] order@[b] as int,
                    ),
            decreases entries.len() - i,
        {
            let mut pos: usize = 0;
            while pos < order.len() && !self.before(i, order[pos])
                invariant
                    entries == self.entries@,
                    i < entries.len(),
                    pos <= order@.len(),
                    forall|k: int| 0 <= k < order@.len() ==> #[trigger] order@[k] < i,
                    forall|k: int|
                        0 <= k < pos ==> goes_before(entries, #[trigger] order@[k] as int, i as int),
                decreases order@.len() - pos,
            {
                pos += 1;
            }
            let ghost before = order@;
            order.insert(pos, i);
            proof {
                let after = order@;
                assert forall|k: int| 0 <= k < after.len() implies #[trigger] after[k] < i + 1 by {
                    if k < pos {
                        assert(after[k] == before[k]);
                    } else if k > pos {
                        assert(after[k] == before[k - 1]);
                    }
                }
                assert forall|a: int, b: int| 0 <= a < b < after.len() implies goes_before(
                    entries,
                    #[trigger] after[a] as int,
                    #[trigger] after[b] as int,
                ) by {
                    if b < pos {
                        assert(after[a] == before[a] && after[b] == before[b]);
                    } else if b == pos {
                        assert(after[a] == before[a]);
                    } else if a < pos {
                        assert(after[a] == before[a] && after[b] == before[b - 1]);
                    } else if a == pos {
                        assert(after[b] == before[b - 1]);
                        assert(before[pos as int] < i);
                        assert(goes_before(entries, i as int, before[pos as int] as int));
                        if b - 1 > pos {
                            assert(goes_before(
                                entries,
                                before[pos as int] as int,
                                before[b - 1] as int,
                            ));
                        }
                    } else {
                        assert(after[a] == before[a - 1] && after[b] == before[b - 1]);
                    }
                }
            }
            i += 1;
        }
        let mut ordered: Vec<Transaction> = Vec::new();
        let mut k: usize = 0;
        while k < order.len() && k < max_count
            invariant
                entries == self.entries@,
                order@.len() == entries.len(),
                k <= order@.len(),
                k <= max_count,
                ordered@.len() == k,
                forall|n: int| 0 <= n < order@.len() ==> #[trigger] order@[n] < entries.len(),
                forall|n: int|
                    0 <= n < k ==> (#[trigger] ordered@[n])@ == entries[order@[n] as int].pending.tx@,
            decreases order@.len() - k,
        {
            ordered.push(self.entries[order[k]].pending.tx.clone());
            k += 1;
        }
        proof {
            let ranks = Seq::new(order@.len(), |n: int| order@[n] as int);
            assert(in_pool_order(entries, ranks));
            assert(ranks.len() == self.entries().len());
            assert forall|n: int| 0 <= n < ordered@.len() implies (#[trigger] ordered@[n])@
                == self.entries()[ranks[n]].pending.tx@ by {
            }
        }
        ordered
    }

    /// Whether the entry at `a` goes before the entry at `b`.
    fn before(&self, a: usize, b: usize) -> (r: bool)
        requires
            a < self.entries().len(),
            b < self.entries().len(),
        ensures
            r == goes_before(self.entries(), a as int, b as int),
    {
        let x = &self.entries[a].pending;
        let y = &self.entries[b].pending;
        if x.fee_priority > y.fee_priority {
            true
        } else if x.fee_priority < y.fee_priority {
            false
        } else if x.added_at < y.added_at {
            true
        } else if x.added_at > y.added_at {
            false
        } else {
            a < b
        }
    }

    /// How many transactions are pending.
    pub fn pending_count(&self) -> (n: usize)
        ensures
            n == self.entries().len(),
    {
        self.entries.len()
    }

    /// Whether a transaction with the hash `tx_hash` is in the pool.
    pub fn contains(&self, tx_hash: &[u8; 32]) -> (r: bool)
        ensures
            r == knows_hash(self.entries(), tx_hash@),
    {
        let mut i: usize = 0;
        while i < self.entries.len()
            invariant
                i <= self.entries@.len(),
                forall|j: int| 0 <= j < i ==> (#[trigger] self.entries@[j]).hash@ != tx_hash@,
            decreases self.entries@.len() - i,
        {
            if keys_equal(&self.entries[i].hash, tx_hash) {
                return true;
            }
            i += 1;
        }
        false
    }

    /// Removes all pending transactions.
    pub fn clear(&mut self)
        ensures
            final(self).spec_config() == old(self).spec_config(),
            final(self).entries().len() == 0,
            final(self).wf(),
    {
        self.entries.clear();
    }
}

/// The hash of a transaction: the digest of its canonical encoding.
pub fn compute_tx_hash(tx: &Transaction) -> (hash: [u8; 32])
    ensures
        hash@ == transaction_hash(tx@),
{
    tx.hash()
}

} // verus!
