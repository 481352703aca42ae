use trv1::keys::PublicKey;
use trv1::slashing::types::{EvidenceRecord, SlashingConfig, SlashingOffense};

fn st_pubkey(n: u8) -> PublicKey {
    let mut k = [0u8; 32];
    k[0] = n;
    k
}

#[test]
fn default_config_percentages() {
    let cfg = SlashingConfig::default();
    assert_eq!(cfg.slash_bps(&SlashingOffense::DoubleSign), 500);
    assert_eq!(cfg.slash_bps(&SlashingOffense::Downtime), 100);
    assert_eq!(cfg.slash_bps(&SlashingOffense::InvalidBlock), 1000);
}

#[test]
fn evidence_hash_deterministic() {
    let evidence = EvidenceRecord {
        offense: SlashingOffense::DoubleSign,
        offender: st_pubkey(1),
        height: 42,
        data: b"conflicting_vote_data".to_vec(),
        processed: false,
    };
    let h1 = evidence.hash();
    let h2 = evidence.hash();
    assert_eq!(h1, h2);
}

#[test]
fn offense_display() {
    assert_eq!(SlashingOffense::DoubleSign.to_string(), "DoubleSign");
    assert_eq!(SlashingOffense::Downtime.to_string(), "Downtime");
    assert_eq!(SlashingOffense::InvalidBlock.to_string(), "InvalidBlock");
}

// The hash folds the JSON text of the bytes of the evidence.
#[test]
fn evidence_hash_folds_the_json_text() {
    let record = EvidenceRecord {
        offense: SlashingOffense::InvalidBlock,
        offender: [0u8; 32],
        height: 0,
        data: vec![255],
        processed: false,
    };
    let mut bytes = vec![0u8; 40];
    bytes.push(255);
    bytes.push(2);
    let text = serde_json::to_vec(&bytes).unwrap();
    assert_eq!(text[0], b'[');
    let mut expected = [0u8; 32];
    for (i, &b) in text.iter().enumerate() {
        expected[i % 32] ^= b;
        expected[(i + 1) % 32] = expected[(i + 1) % 32].wrapping_add(b.wrapping_mul(31));
    }
    assert_eq!(record.hash(), expected);
    let mut processed = record.clone();
    processed.processed = true;
    assert_eq!(processed.hash(), expected);
    assert_eq!(SlashingConfig::default().slash_bps(&SlashingOffense::Downtime), 100);
}
