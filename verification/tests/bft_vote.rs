use ed25519_dalek::SigningKey;
use rand::rngs::OsRng;
use trv1::bft::types::{BlockHash, Height, Round, Vote, VoteType};
use trv1::bft::vote::VoteSet;

fn make_signing_keys(n: usize) -> Vec<[u8; 32]> {
    (0..n).map(|_| SigningKey::generate(&mut OsRng).to_bytes()).collect()
}

fn one_signing_key() -> [u8; 32] {
    SigningKey::generate(&mut OsRng).to_bytes()
}

#[test]
fn test_vote_sign_and_verify() {
    let key = one_signing_key();
    let vote = Vote::new(VoteType::Prevote, Height(1), Round(0), Some(BlockHash([0xAB; 32])), &key);
    assert!(vote.verify(), "valid vote should verify");
}

#[test]
fn test_nil_vote_sign_and_verify() {
    let key = one_signing_key();
    let vote = Vote::new(VoteType::Prevote, Height(5), Round(2), None, &key);
    assert!(vote.verify());
    assert!(vote.block_hash.is_none());
}

#[test]
fn test_vote_tampered_fails() {
    let key = one_signing_key();
    let mut vote =
        Vote::new(VoteType::Prevote, Height(1), Round(0), Some(BlockHash([0xAB; 32])), &key);
    vote.block_hash = Some(BlockHash([0xCD; 32]));
    assert!(!vote.verify(), "tampered vote should fail verification");
}

#[test]
fn test_voteset_quorum_4_validators() {
    let keys = make_signing_keys(4);
    let hash = BlockHash([0x11; 32]);
    let mut vs = VoteSet::new(VoteType::Prevote, Height(1), Round(0), 4);

    for key in &keys[0..2] {
        let vote = Vote::new(VoteType::Prevote, Height(1), Round(0), Some(hash), key);
        assert!(vs.add_vote(vote));
    }
    assert!(!vs.has_quorum_for(&hash));

    let vote = Vote::new(VoteType::Prevote, Height(1), Round(0), Some(hash), &keys[2]);
    assert!(vs.add_vote(vote));
    assert!(vs.has_quorum_for(&hash));
}

#[test]
fn test_voteset_quorum_3_validators() {
    let keys = make_signing_keys(3);
    let hash = BlockHash([0x22; 32]);
    let mut vs = VoteSet::new(VoteType::Precommit, Height(1), Round(0), 3);

    for key in &keys[0..2] {
        let vote = Vote::new(VoteType::Precommit, Height(1), Round(0), Some(hash), key);
        vs.add_vote(vote);
    }
    assert!(!vs.has_quorum_for(&hash), "2 of 3 should not be quorum (need strict >2/3)");

    let vote = Vote::new(VoteType::Precommit, Height(1), Round(0), Some(hash), &keys[2]);
    vs.add_vote(vote);
    assert!(vs.has_quorum_for(&hash), "3 of 3 should be quorum");
}

#[test]
fn test_voteset_rejects_duplicate() {
    let key = one_signing_key();
    let hash = BlockHash([0x33; 32]);
    let mut vs = VoteSet::new(VoteType::Prevote, Height(1), Round(0), 4);

    let vote1 = Vote::new(VoteType::Prevote, Height(1), Round(0), Some(hash), &key);
    let vote2 = Vote::new(VoteType::Prevote, Height(1), Round(0), Some(hash), &key);
    assert!(vs.add_vote(vote1));
    assert!(!vs.add_vote(vote2), "duplicate vote should be rejected");
    assert_eq!(vs.count(), 1);
}

#[test]
fn test_voteset_rejects_wrong_round() {
    let key = one_signing_key();
    let hash = BlockHash([0x44; 32]);
    let mut vs = VoteSet::new(VoteType::Prevote, Height(1), Round(0), 4);

    let vote = Vote::new(VoteType::Prevote, Height(1), Round(1), Some(hash), &key);
    assert!(!vs.add_vote(vote), "wrong round should be rejected");
}

#[test]
fn test_voteset_nil_quorum() {
    let keys = make_signing_keys(4);
    let mut vs = VoteSet::new(VoteType::Prevote, Height(1), Round(0), 4);

    for key in &keys[0..3] {
        let vote = Vote::new(VoteType::Prevote, Height(1), Round(0), None, key);
        vs.add_vote(vote);
    }
    assert!(vs.has_quorum_for_nil(), "3 of 4 nil should be quorum");
}

#[test]
fn test_voteset_quorum_block() {
    let keys = make_signing_keys(4);
    let hash = BlockHash([0x55; 32]);
    let mut vs = VoteSet::new(VoteType::Precommit, Height(1), Round(0), 4);

    for key in &keys[0..3] {
        let vote = Vote::new(VoteType::Precommit, Height(1), Round(0), Some(hash), key);
        vs.add_vote(vote);
    }
    assert_eq!(vs.quorum_block(), Some(hash));
}

#[test]
fn test_voteset_split_no_quorum() {
    let keys = make_signing_keys(4);
    let hash_a = BlockHash([0xAA; 32]);
    let hash_b = BlockHash([0xBB; 32]);
    let mut vs = VoteSet::new(VoteType::Prevote, Height(1), Round(0), 4);

    for key in &keys[0..2] {
        let vote = Vote::new(VoteType::Prevote, Height(1), Round(0), Some(hash_a), key);
        vs.add_vote(vote);
    }
    for key in &keys[2..4] {
        let vote = Vote::new(VoteType::Prevote, Height(1), Round(0), Some(hash_b), key);
        vs.add_vote(vote);
    }

    assert!(!vs.has_quorum_for(&hash_a));
    assert!(!vs.has_quorum_for(&hash_b));
    assert_eq!(vs.quorum_block(), None);
    assert!(vs.has_two_thirds_any());
}

// The signed bytes: type tag, height, round, then 1 and the hash, or 0 for nil.
#[test]
fn vote_sign_bytes_layout() {
    let hash = BlockHash([0x77; 32]);
    let bytes = Vote::sign_bytes(VoteType::Precommit, Height(0x0102), Round(3), &Some(hash));
    let mut expected = vec![0x02];
    expected.extend_from_slice(&0x0102u64.to_le_bytes());
    expected.extend_from_slice(&3u32.to_le_bytes());
    expected.push(0x01);
    expected.extend_from_slice(&[0x77; 32]);
    assert_eq!(bytes, expected);

    let nil = Vote::sign_bytes(VoteType::Prevote, Height(1), Round(0), &None);
    let mut expected_nil = vec![0x01];
    expected_nil.extend_from_slice(&1u64.to_le_bytes());
    expected_nil.extend_from_slice(&0u32.to_le_bytes());
    expected_nil.push(0x00);
    assert_eq!(nil, expected_nil);
}

#[test]
fn vote_names_the_public_key_of_its_signer() {
    let key = SigningKey::generate(&mut OsRng);
    let vote = Vote::new(VoteType::Prevote, Height(1), Round(0), None, &key.to_bytes());
    assert_eq!(vote.validator.0, key.verifying_key().to_bytes());
    assert_ne!(vote.signature, [0u8; 64]);
}

#[test]
fn voteset_rejects_wrong_type_and_height_and_bad_signature() {
    let key = one_signing_key();
    let mut vs = VoteSet::new(VoteType::Prevote, Height(1), Round(0), 4);
    let wrong_type = Vote::new(VoteType::Precommit, Height(1), Round(0), None, &key);
    assert!(!vs.add_vote(wrong_type));
    let wrong_height = Vote::new(VoteType::Prevote, Height(2), Round(0), None, &key);
    assert!(!vs.add_vote(wrong_height));
    let mut forged = Vote::new(VoteType::Prevote, Height(1), Round(0), None, &key);
    forged.signature = [0u8; 64];
    assert!(!vs.add_vote(forged));
    assert_eq!(vs.count(), 0);
}

fn quorum_needed(total: usize) -> usize {
    let keys = make_signing_keys(total);
    let hash = BlockHash([0x66; 32]);
    let mut vs = VoteSet::new(VoteType::Prevote, Height(1), Round(0), total);
    let mut needed = 0;
    for key in &keys {
        assert!(vs.add_vote(Vote::new(VoteType::Prevote, Height(1), Round(0), Some(hash), key)));
        needed += 1;
        if vs.has_quorum_for(&hash) {
            assert!(3 * vs.count() > 2 * total);
            break;
        }
    }
    needed
}

#[test]
fn quorum_thresholds() {
    assert_eq!(quorum_needed(1), 1);
    assert_eq!(quorum_needed(3), 3);
    assert_eq!(quorum_needed(4), 3);
    assert_eq!(quorum_needed(7), 5);
}
