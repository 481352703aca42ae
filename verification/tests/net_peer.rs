use trv1::net::peer::PeerManager;

fn random_peer_id() -> Vec<u8> {
    let bytes: [u8; 32] = rand::random();
    let mut id = vec![0x00, 0x24, 0x08, 0x01, 0x12, 0x20];
    id.extend_from_slice(&bytes);
    id
}

#[test]
fn test_add_and_get_peer() {
    let mut pm = PeerManager::new(-100);
    let peer = random_peer_id();
    pm.add_peer(peer.clone(), Some("/ip4/127.0.0.1/tcp/9000".into()), 1000);

    let info = pm.get_peer(&peer).expect("peer should exist");
    assert_eq!(info.peer_id, peer);
    assert_eq!(info.score, 0);
    assert_eq!(info.last_seen, 1000);
}

#[test]
fn test_add_peer_updates_last_seen() {
    let mut pm = PeerManager::new(-100);
    let peer = random_peer_id();
    pm.add_peer(peer.clone(), None, 1000);
    pm.add_peer(peer.clone(), None, 2000);

    let info = pm.get_peer(&peer).unwrap();
    assert_eq!(info.last_seen, 2000);
    assert_eq!(pm.peer_count(), 1);
}

#[test]
fn test_remove_peer() {
    let mut pm = PeerManager::new(-100);
    let peer = random_peer_id();
    pm.add_peer(peer.clone(), None, 1000);
    assert_eq!(pm.peer_count(), 1);

    let removed = pm.remove_peer(&peer);
    assert!(removed.is_some());
    assert_eq!(pm.peer_count(), 0);
}

#[test]
fn test_adjust_score() {
    let mut pm = PeerManager::new(-100);
    let peer = random_peer_id();
    pm.add_peer(peer.clone(), None, 1000);

    let score = pm.adjust_score(&peer, 10).unwrap();
    assert_eq!(score, 10);

    let score = pm.adjust_score(&peer, -25).unwrap();
    assert_eq!(score, -15);
}

#[test]
fn test_ban_threshold() {
    let mut pm = PeerManager::new(-50);
    let peer = random_peer_id();
    pm.add_peer(peer.clone(), None, 1000);

    assert!(!pm.is_banned(&peer));
    pm.adjust_score(&peer, -51);
    assert!(pm.is_banned(&peer));
}

#[test]
fn test_prune_stale() {
    let mut pm = PeerManager::new(-100);
    let peer_1 = random_peer_id();
    let peer_2 = random_peer_id();
    let peer_3 = random_peer_id();

    pm.add_peer(peer_1.clone(), None, 100);
    pm.add_peer(peer_2.clone(), None, 500);
    pm.add_peer(peer_3.clone(), None, 1000);

    let pruned = pm.prune_stale(600);
    assert_eq!(pruned.len(), 2);
    assert!(pruned.contains(&peer_1));
    assert!(pruned.contains(&peer_2));
    assert_eq!(pm.peer_count(), 1);
    assert!(pm.get_peer(&peer_3).is_some());
}

#[test]
fn test_connected_peers() {
    let mut pm = PeerManager::new(-100);
    let peer_1 = random_peer_id();
    let peer_2 = random_peer_id();
    pm.add_peer(peer_1.clone(), None, 100);
    pm.add_peer(peer_2.clone(), None, 200);

    let peers = pm.connected_peers();
    assert_eq!(peers.len(), 2);
    assert!(peers.contains(&peer_1));
    assert!(peers.contains(&peer_2));
}

#[test]
fn peer_known_again_keeps_score_and_address() {
    let mut pm = PeerManager::new(-100);
    let peer = vec![1u8, 2, 3];
    pm.add_peer(peer.clone(), Some("/ip4/10.0.0.1/tcp/1".to_string()), 5);
    pm.adjust_score(&peer, 7);
    pm.add_peer(peer.clone(), None, 9);
    let info = pm.get_peer(&peer).unwrap();
    assert_eq!(info.score, 7);
    assert_eq!(info.last_seen, 9);
}

#[test]
fn score_of_unknown_peer_is_not_adjusted() {
    let mut pm = PeerManager::new(-100);
    assert_eq!(pm.adjust_score(&[9u8, 9], 5), None);
    assert!(!pm.is_banned(&[9u8, 9]));
    assert!(pm.remove_peer(&[9u8, 9]).is_none());
    assert!(pm.get_peer(&[9u8, 9]).is_none());
}

#[test]
fn score_saturates() {
    let mut pm = PeerManager::new(-100);
    let peer = vec![4u8];
    pm.add_peer(peer.clone(), None, 0);
    assert_eq!(pm.adjust_score(&peer, i64::MAX), Some(i64::MAX));
    assert_eq!(pm.adjust_score(&peer, 1), Some(i64::MAX));
    assert_eq!(pm.adjust_score(&peer, i64::MIN), Some(-1));
    assert_eq!(pm.adjust_score(&peer, i64::MIN), Some(i64::MIN));
    assert!(pm.is_banned(&peer));
}

#[test]
fn ban_is_strictly_below_the_threshold() {
    let mut pm = PeerManager::new(-50);
    let peer = vec![5u8];
    pm.add_peer(peer.clone(), None, 0);
    pm.adjust_score(&peer, -50);
    assert!(!pm.is_banned(&peer));
    pm.adjust_score(&peer, -1);
    assert!(pm.is_banned(&peer));
}

#[test]
fn prune_keeps_peers_seen_at_the_cutoff() {
    let mut pm = PeerManager::new(-100);
    pm.add_peer(vec![1], None, 599);
    pm.add_peer(vec![2], None, 600);
    pm.add_peer(vec![3], None, 601);
    let pruned = pm.prune_stale(600);
    assert_eq!(pruned, vec![vec![1u8]]);
    assert_eq!(pm.connected_peers(), vec![vec![2u8], vec![3u8]]);
}
