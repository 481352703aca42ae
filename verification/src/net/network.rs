//! What the node decides about what comes in from the gossip network.

use vstd::prelude::*;
use vstd::string::StringExecFns;
use vstd::string::StringSliceAdditionalSpecFns;
use crate::bft::block::Transaction;
use crate::net::codec::{
    CodecError,
    NetworkMessage,
    decode_consensus_message,
    decode_transaction,
    message_view,
    parse_message,
};
use crate::net::peer::{PeerInfo, PeerManager, moved_score};
use crate::net::wire::parse_transaction;

verus! {

/// The gossip topic of the consensus messages.
pub const CONSENSUS_TOPIC: &'static str = "trv1-consensus";

/// The gossip topic of the transactions.
pub const TRANSACTION_TOPIC: &'static str = "trv1-transactions";

/// What a peer loses of its score for a message that cannot be decoded.
pub const DECODE_PENALTY: i64 = -10;

/// Why the network failed.
#[derive(Debug, Clone, PartialEq, Eq)]
pub enum NetworkError {
    Transport(String),
    Gossipsub(String),
    Codec(CodecError),
    ChannelClosed,
}

/// The configuration of the consensus network.
#[derive(Debug, Clone, PartialEq, Eq)]
pub struct NetworkConfig {
    /// The address to listen on, as a multiaddress.
    pub listen_address: String,
    /// The heartbeat interval of the gossip, in seconds.
    pub heartbeat_interval_secs: u64,
    /// The score below which a peer is banned.
    pub peer_ban_threshold: i64,
}

impl Default for NetworkConfig {
    fn default() -> (config: Self)
        ensures
            config.listen_address@ == "/ip4/0.0.0.0/tcp/30333"@,
            config.heartbeat_interval_secs == 1,
            config.peer_ban_threshold == -100,
    {
        NetworkConfig {
            listen_address: String::from_str("/ip4/0.0.0.0/tcp/30333"),
            heartbeat_interval_secs: 1,
            peer_ban_threshold: -100,
        }
    }
}

/// The topic that a gossip message came in on.
#[derive(Debug, Clone, Copy, PartialEq, Eq, Structural)]
pub enum Topic {
    Consensus,
    Transactions,
    Unknown,
}

/// What is to be done with a gossip message.
#[derive(Debug, Clone)]
pub enum Inbound {
    /// Hand the consensus message on, with the identity of its sender.
    Consensus(NetworkMessage),
    /// Hand the transaction on.
    Transaction(Transaction),
    /// The message could not be decoded; its sender has lost score.
    Undecodable,
    /// The message came in on a topic that the node does not know.
    Ignored,
}

/// Decides what is to be done with the gossip message `data` that came in
/// on `topic` from the peer `source`. A message that decodes is handed on;
/// for one that does not, the sender loses ten points of its score.
pub fn on_gossip(peers: &mut PeerManager, topic: Topic, source: &[u8], data: &[u8]) -> (r: Inbound)
    ensures
        final(peers).threshold() == old(peers).threshold(),
        match topic {
            Topic::Consensus => match parse_message(data@, 0) {
                Some((view, end)) => r matches Inbound::Consensus(message) && message.sender@
                    == source@ && message_view(message.message) == view && final(peers).peers()
                    == old(peers).peers(),
                None => r is Undecodable,
            },
            Topic::Transactions => match parse_transaction(data@, 0) {
                Some((view, end)) => r matches Inbound::Transaction(tx) && tx@ == view && final(peers).peers() == old(peers).peers(),
                None => r is Undecodable,
            },
            Topic::Unknown => r is Ignored && final(peers).peers() == old(peers).peers(),
        },
        r is Undecodable ==> match old(peers).position(source@) {
            Some(i) => final(peers).peers() == old(peers).peers().update(
                i,
                PeerInfo {
                    score: moved_score(old(peers).peers()[i].score, DECODE_PENALTY),
                    ..old(peers).peers()[i]
                },
            ),
            None => final(peers).peers() == old(peers).peers(),
        },
{
    match topic {
        Topic::Consensus => match decode_consensus_message(data) {
            Ok(message) => {
                let sender = crate::bytes::copy_range(source, 0, source.len());
                assert(sender@ =~= source@);
                Inbound::Consensus(NetworkMessage { sender, message })
            },
            Err(_) => {
                peers.adjust_score(source, DECODE_PENALTY);
                Inbound::Undecodable
            },
        },
        Topic::Transactions => match decode_transaction(data) {
            Ok(tx) => Inbound::Transaction(tx),
            Err(_) => {
                peers.adjust_score(source, DECODE_PENALTY);
                Inbound::Undecodable
            },
        },
        Topic::Unknown => Inbound::Ignored,
    }
}

/// The topic with the name `name`.
pub fn topic_of(name: &str) -> (topic: Topic)
    ensures
        topic == (if name.spec_bytes() == CONSENSUS_TOPIC.spec_bytes() {
            Topic::Consensus
        } else if name.spec_bytes() == TRANSACTION_TOPIC.spec_bytes() {
            Topic::Transactions
        } else {
            Topic::Unknown
        }),
{
    if crate::bytes::bytes_equal(name.as_bytes(), CONSENSUS_TOPIC.as_bytes()) {
        Topic::Consensus
    } else if crate::bytes::bytes_equal(name.as_bytes(), TRANSACTION_TOPIC.as_bytes()) {
        Topic::Transactions
    } else {
        Topic::Unknown
    }
}

} // verus!
