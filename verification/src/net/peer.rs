//! The connected peers and their reputation.

use vstd::prelude::*;
use crate::bytes::bytes_equal;

verus! {

/// What is known of a connected peer.
#[derive(Debug, Clone, PartialEq, Eq)]
pub struct PeerInfo {
    /// The identity of the peer, as bytes.
    pub peer_id: Vec<u8>,
    pub address: Option<String>,
    /// When the peer was last seen.
    pub last_seen: u64,
    /// The reputation: the higher, the better.
    pub score: i64,
}

/// The position of the first peer with the identity `id`, from `from` on.
pub open spec fn peer_position(peers: Seq<PeerInfo>, id: Seq<u8>, from: int) -> Option<int>
    decreases peers.len() - from,
{
    if from < 0 || from >= peers.len() {
        None
    } else if peers[from].peer_id@ == id {
        Some(from)
    } else {
        peer_position(peers, id, from + 1)
    }
}

/// A score after `delta` was added: it stays within the 64-bit range.
pub open spec fn moved_score(score: i64, delta: i64) -> i64 {
    if score + delta > i64::MAX {
        i64::MAX
    } else if score + delta < i64::MIN {
        i64::MIN
    } else {
        (score + delta) as i64
    }
}

/// The peers among the first `n` that were last seen at `cutoff` or later.
pub open spec fn kept_upto(peers: Seq<PeerInfo>, cutoff: u64, n: int) -> Seq<PeerInfo>
    decreases n,
{
    if n <= 0 {
        Seq::<PeerInfo>::empty()
    } else {
        let kept = kept_upto(peers, cutoff, n - 1);
        if peers[n - 1].last_seen < cutoff {
            kept
        } else {
            kept.push(peers[n - 1])
        }
    }
}

/// The identities of the peers among the first `n` that were last seen
/// before `cutoff`.
pub open spec fn stale_upto(peers: Seq<PeerInfo>, cutoff: u64, n: int) -> Seq<Seq<u8>>
    decreases n,
{
    if n <= 0 {
        Seq::<Seq<u8>>::empty()
    } else {
        let stale = stale_upto(peers, cutoff, n - 1);
        if peers[n - 1].last_seen < cutoff {
            stale.push(peers[n - 1].peer_id@)
        } else {
            stale
        }
    }
}

/// The byte strings of a sequence of vectors.
pub open spec fn id_views(ids: Seq<Vec<u8>>) -> Seq<Seq<u8>> {
    Seq::new(ids.len(), |i: int| ids[i]@)
}

proof fn lemma_peer_position_range(peers: Seq<PeerInfo>, id: Seq<u8>, from: int)
    requires
        0 <= from,
    ensures
        match peer_position(peers, id, from) {
            Some(i) => from <= i < peers.len() && peers[i].peer_id@ == id && forall|j: int|
                from <= j < i ==> (#[trigger] peers[j]).peer_id@ != id,
            None => forall|j: int| from <= j < peers.len() ==> (#[trigger] peers[j]).peer_id@ != id,
        },
    decreases peers.len() - from,
{
    if from < peers.len() && peers[from].peer_id@ != id {
        lemma_peer_position_range(peers, id, from + 1);
    }
}

/// The connected peers, in the order in which they connected.
#[derive(Debug, Clone)]
pub struct PeerManager {
    peers: Vec<PeerInfo>,
    ban_threshold: i64,
}

impl PeerManager {
    /// The connected peers.
    pub closed spec fn peers(self) -> Seq<PeerInfo> {
        self.peers@
    }

    /// The score below which a peer is banned.
    pub closed spec fn threshold(self) -> i64 {
        self.ban_threshold
    }

    /// The position of the peer `id`.
    pub open spec fn position(self, id: Seq<u8>) -> Option<int> {
        peer_position(self.peers(), id, 0)
    }

    /// No peer, and the ban threshold `ban_threshold`.
    pub fn new(ban_threshold: i64) -> (manager: Self)
        ensures
            manager.peers().len() == 0,
            manager.threshold() == ban_threshold,
    {
        PeerManager { peers: Vec::new(), ban_threshold }
    }

    fn find(&self, peer_id: &[u8]) -> (r: Option<usize>)
        ensures
            match r {
                Some(i) => self.position(peer_id@) == Some(i as int) && i < self.peers().len()
                    && self.peers()[i as int].peer_id@ == peer_id@,
                None => self.position(peer_id@) is None,
            },
    {
        proof {
            lemma_peer_position_range(self.peers@, peer_id@, 0);
        }
        let mut i: usize = 0;
        while i < self.peers.len()
            invariant
                i <= self.peers@.len(),
                peer_position(self.peers@, peer_id@, 0) == peer_position(
                    self.peers@,
                    peer_id@,
                    i as int,
                ),
            decreases self.peers@.len() - i,
        {
            if bytes_equal(self.peers[i].peer_id.as_slice(), peer_id) {
                return Some(i);
            }
            i += 1;
        }
        None
    }

    /// Takes a peer in with score 0, or, for a peer that is connected,
    /// records that it was seen at `now`, and its address if one is given.
    pub fn add_peer(&mut self, peer_id: Vec<u8>, address: Option<String>, now: u64)
        ensures
            final(self).threshold() == old(self).threshold(),
            match old(self).position(peer_id@) {
                Some(i) => final(self).peers() == old(self).peers().update(
                    i,
                    PeerInfo {
                        last_seen: now,
                        address: if address is Some {
                            address
                        } else {
                            old(self).peers()[i].address
                        },
                        ..old(self).peers()[i]
                    },
                ),
                None => final(self).peers() == old(self).peers().push(
                    PeerInfo { peer_id, address, last_seen: now, score: 0 },
                ),
            },
    {
        match self.find(peer_id.as_slice()) {
            Some(i) => {
                let known = self.peers.remove(i);
                let address = match address {
                    Some(text) => Some(text),
                    None => known.address,
                };
                self.peers.insert(
                    i,
                    PeerInfo {
                        peer_id: known.peer_id,
                        address,
                        last_seen: now,
                        score: known.score,
                    },
                );
                assert(self.peers@ =~= old(self).peers@.update(i as int, self.peers@[i as int]));
            },
            None => {
                self.peers.push(PeerInfo { peer_id, address, last_seen: now, score: 0 });
            },
        }
    }

    /// Removes a peer and returns what was known of it.
    pub fn remove_peer(&mut self, peer_id: &[u8]) -> (r: Option<PeerInfo>)
        ensures
            final(self).threshold() == old(self).threshold(),
            match old(self).position(peer_id@) {
                Some(i) => r == Some(old(self).peers()[i]) && final(self).peers() == old(
                    self,
                ).peers().remove(i),
                None => r is None && final(self).peers() == old(self).peers(),
            },
    {
        match self.find(peer_id) {
            Some(i) => Some(self.peers.remove(i)),
            None => None,
        }
    }

    /// Adds `delta` to the score of a peer and returns the new score, which
    /// stays within the 64-bit range. There is none for an unknown peer.
    pub fn adjust_score(&mut self, peer_id: &[u8], delta: i64) -> (r: Option<i64>)
        ensures
            final(self).threshold() == old(self).threshold(),
            match old(self).position(peer_id@) {
                Some(i) => r == Some(moved_score(old(self).peers()[i].score, delta)) && final(self).peers() == old(self).peers().update(
                    i,
                    PeerInfo {
                        score: moved_score(old(self).peers()[i].score, delta),
                        ..old(self).peers()[i]
                    },
                ),
                None => r is None && final(self).peers() == old(self).peers(),
            },
    {
        match self.find(peer_id) {
            Some(i) => {
                let known = self.peers.remove(i);
                let score = match known.score.checked_add(delta) {
                    Some(sum) => sum,
                    None => if delta > 0 {
                        i64::MAX
                    } else {
                        i64::MIN
                    },
                };
                self.peers.insert(
                    i,
                    PeerInfo {
                        peer_id: known.peer_id,
                        address: known.address,
                        last_seen: known.last_seen,
                        score,
                    },
                );
                assert(self.peers@ =~= old(self).peers@.update(i as int, self.peers@[i as int]));
                Some(score)
            },
            None => None,
        }
    }

    /// Whether a peer is banned: it is known, and its score is below the
    /// threshold.
    pub fn is_banned(&self, peer_id: &[u8]) -> (r: bool)
        ensures
            r == (self.position(peer_id@) matches Some(i) && self.peers()[i].score
                < self.threshold()),
    {
        match self.find(peer_id) {
            Some(i) => self.peers[i].score < self.ban_threshold,
            None => false,
        }
    }

    /// What is known of a peer.
    pub fn get_peer(&self, peer_id: &[u8]) -> (r: Option<&PeerInfo>)
        ensures
            match self.position(peer_id@) {
                Some(i) => r == Some(&self.peers()[i]),
                None => r is None,
            },
    {
        match self.find(peer_id) {
            Some(i) => Some(&self.peers[i]),
            None => None,
        }
    }

    /// The identities of the connected peers.
    pub fn connected_peers(&self) -> (ids: Vec<Vec<u8>>)
        ensures
            ids@.len() == self.peers().len(),
            forall|i: int| 0 <= i < ids@.len() ==> (#[trigger] ids@[i])@ == self.peers()[i].peer_id@,
    {
        let mut ids: Vec<Vec<u8>> = Vec::new();
        let mut i: usize = 0;
        while i < self.peers.len()
            invariant
                i <= self.peers@.len(),
                ids@.len() == i,
                forall|j: int| 0 <= j < i ==> (#[trigger] ids@[j])@ == self.peers@[j].peer_id@,
            decreases self.peers@.len() - i,
        {
            ids.push(self.peers[i].peer_id.clone());
            i += 1;
        }
        ids
    }

    /// The number of connected peers.
    pub fn peer_count(&self) -> (n: usize)
        ensures
            n == self.peers().len(),
    {
        self.peers.len()
    }

    /// Removes the peers that were not seen since `cutoff`, and returns
    /// their identities.
    pub fn prune_stale(&mut self, cutoff: u64) -> (stale: Vec<Vec<u8>>)
        ensures
            final(self).threshold() == old(self).threshold(),
            final(self).peers() == kept_upto(
                old(self).peers(),
                cutoff,
                old(self).peers().len() as int,
            ),
            id_views(stale@) == stale_upto(
                old(self).peers(),
                cutoff,
                old(self).peers().len() as int,
            ),
    {
        let ghost all = self.peers@;
        let ghost mut done: int = 0;
        let mut stale: Vec<Vec<u8>> = Vec::new();
        let mut i: usize = 0;
        proof {
            assert(self.peers@.subrange(0, 0) =~= kept_upto(all, cutoff, 0));
            assert(id_views(stale@) =~= stale_upto(all, cutoff, 0));
            assert(self.peers@.subrange(0, all.len() as int) =~= all.subrange(0, all.len() as int));
        }
        while i < self.peers.len()
            invariant
                self.ban_threshold == old(self).ban_threshold,
                i <= self.peers@.len(),
                0 <= done <= all.len(),
                self.peers@.len() - i == all.len() - done,
                self.peers@.subrange(0, i as int) == kept_upto(all, cutoff, done),
                id_views(stale@) == stale_upto(all, cutoff, done),
                self.peers@.subrange(i as int, self.peers@.len() as int) == all.subrange(
                    done,
                    all.len() as int,
                ),
            decreases self.peers@.len() - i,
        {
            let ghost before = self.peers@;
            proof {
                assert(before[i as int] == before.subrange(i as int, before.len() as int)[0]);
                assert(before[i as int] == all[done]);
            }
            if self.peers[i].last_seen < cutoff {
                let gone = self.peers.remove(i);
                let ghost noted = stale@;
                stale.push(gone.peer_id);
                proof {
                    assert(id_views(stale@) =~= id_views(noted).push(all[done].peer_id@));
                    assert(self.peers@.subrange(0, i as int) =~= before.subrange(0, i as int));
                    assert forall|n: int| i <= n < self.peers@.len() implies #[trigger] self.peers@[n]
                        == all[done + 1 + n - i] by {
                        assert(before.subrange(i as int, before.len() as int)[n - i + 1]
                            == all.subrange(done, all.len() as int)[n - i + 1]);
                    }
                    assert(self.peers@.subrange(i as int, self.peers@.len() as int)
                        =~= all.subrange(done + 1, all.len() as int));
                }
            } else {
                proof {
                    assert(self.peers@.subrange(0, i + 1) =~= self.peers@.subrange(
                        0,
                        i as int,
                    ).push(all[done]));
                    assert forall|n: int| i + 1 <= n < self.peers@.len() implies #[trigger] self.peers@[n]
                        == all[done + n - i] by {
                        assert(before.subrange(i as int, before.len() as int)[n - i] == all.subrange(
                            done,
                            all.len() as int,
                        )[n - i]);
                    }
                    assert(self.peers@.subrange(i + 1, self.peers@.len() as int)
                        =~= all.subrange(done + 1, all.len() as int));
                }
                i += 1;
            }
            proof {
                done = done + 1;
            }
        }
        proof {
            assert(self.peers@.subrange(0, i as int) =~= self.peers@);
        }
        stale
    }
}

} // verus!
