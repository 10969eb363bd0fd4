use robot_attestation::cbor::{EncodeError, SerializationError};
use robot_attestation::records::{as_hashes, hashes_value, status_as_token, status_of_token};
use robot_attestation::serialization::{from_canonical_cbor, to_canonical_cbor};
use robot_attestation::{
    AttestationResult, Entry, MerkleProof, MerkleTree, RevocationStatus, Timestamp,
};

fn report() -> AttestationResult {
    AttestationResult {
        vendor: "intel-sgx".to_string(),
        enclave_measurement: vec![0xa0; 32],
        quote_verified: true,
        verified_at: Timestamp::new(1_760_184_000, 0),
        revoke_check: RevocationStatus::Valid,
        raw_quote: Some(vec![3, 0, 2, 0]),
        pck_chain: None,
    }
}

fn same_report(a: &AttestationResult, b: &AttestationResult) -> bool {
    a.vendor == b.vendor
        && a.enclave_measurement == b.enclave_measurement
        && a.quote_verified == b.quote_verified
        && a.verified_at == b.verified_at
        && a.revoke_check == b.revoke_check
        && a.raw_quote == b.raw_quote
        && a.pck_chain == b.pck_chain
}

#[test]
fn entry_record_byte_for_byte() {
    let entry = Entry { timestamp_us: 1000, nonce: 7, data_hash: [1u8; 32] };
    let bytes = to_canonical_cbor(&entry.to_value()).unwrap();
    let mut expected: Vec<u8> = vec![0xa3, 0x65];
    expected.extend_from_slice(b"nonce");
    expected.push(0x07);
    expected.push(0x69);
    expected.extend_from_slice(b"data_hash");
    expected.extend_from_slice(&[0x98, 32]);
    expected.extend_from_slice(&[1u8; 32]);
    expected.push(0x6c);
    expected.extend_from_slice(b"timestamp_us");
    expected.extend_from_slice(&[0x19, 0x03, 0xe8]);
    assert_eq!(bytes, expected);
}

#[test]
fn entry_record_round_trips() {
    for entry in [
        Entry::new(0, 0, b""),
        Entry::new(1_728_000_000_000_000, 3, b"Robot moved to waypoint 3"),
        Entry::new(u64::MAX, u64::MAX, b"last"),
    ] {
        let bytes = to_canonical_cbor(&entry.to_value()).unwrap();
        let value = from_canonical_cbor(&bytes).unwrap();
        assert_eq!(Entry::from_value(&value), Some(entry));
    }
}

#[test]
fn entry_record_with_a_short_hash_is_refused() {
    let entry = Entry::new(5, 6, b"x");
    let proof = MerkleProof { leaf: entry, leaf_index: 0, siblings: vec![], root: [0u8; 32] };
    // a proof record is no entry record
    assert_eq!(Entry::from_value(&proof.to_value()), None);
    assert!(MerkleProof::from_value(&entry.to_value()).is_none());
}

#[test]
fn proof_record_round_trips_and_still_verifies() {
    let mut tree = MerkleTree::new();
    for i in 0..5u64 {
        tree.insert(Entry::new(1000 + i, i, format!("e{}", i).as_bytes()));
    }
    let root = tree.root();
    let proof = tree.generate_proof(1002, 2).unwrap();
    let bytes = to_canonical_cbor(&proof.to_value()).unwrap();
    let read = MerkleProof::from_value(&from_canonical_cbor(&bytes).unwrap()).unwrap();
    assert_eq!(read.leaf, proof.leaf);
    assert_eq!(read.leaf_index, 2);
    assert_eq!(read.siblings, proof.siblings);
    assert_eq!(read.root, root);
    assert!(read.verify(&root));
    assert_eq!(to_canonical_cbor(&read.to_value()).unwrap(), bytes);
}

#[test]
fn hashes_as_a_record_value() {
    let hashes = vec![[1u8; 32], [2u8; 32]];
    let value = hashes_value(&hashes);
    assert_eq!(as_hashes(&value), Some(hashes));
    assert_eq!(as_hashes(&hashes_value(&vec![])), Some(vec![]));
    assert_eq!(as_hashes(&Entry::new(1, 1, b"").to_value()), None);
}

#[test]
fn attestation_result_record_round_trips() {
    let mut with_chain = report();
    with_chain.pck_chain = Some("-----BEGIN CERTIFICATE-----".to_string());
    with_chain.raw_quote = None;
    with_chain.quote_verified = false;
    with_chain.revoke_check = RevocationStatus::Unknown;
    let mut revoked = report();
    revoked.revoke_check = RevocationStatus::Revoked;
    for result in [report(), with_chain, revoked] {
        let bytes = to_canonical_cbor(&result.to_value().unwrap()).unwrap();
        let read = AttestationResult::from_value(&from_canonical_cbor(&bytes).unwrap()).unwrap();
        assert!(same_report(&read, &result));
        assert_eq!(to_canonical_cbor(&read.to_value().unwrap()).unwrap(), bytes);
    }
}

#[test]
fn attestation_result_record_names_its_fields() {
    let bytes = to_canonical_cbor(&report().to_value().unwrap()).unwrap();
    let read: ciborium::Value = ciborium::from_reader(&bytes[..]).unwrap();
    let names: Vec<String> = read
        .as_map()
        .unwrap()
        .iter()
        .map(|(key, _)| key.as_text().unwrap().to_string())
        .collect();
    assert_eq!(
        names,
        vec![
            "vendor",
            "raw_quote",
            "verified_at",
            "revoke_check",
            "quote_verified",
            "enclave_measurement"
        ]
    );
    let fields = read.as_map().unwrap();
    assert_eq!(fields[2].1, ciborium::Value::Text("2025-10-11T12:00:00Z".to_string()));
    assert_eq!(fields[3].1, ciborium::Value::Text("ok".to_string()));
    assert_eq!(fields[4].1, ciborium::Value::Bool(true));
}

#[test]
fn attestation_result_without_a_text_for_its_instant_is_not_written() {
    let mut result = report();
    result.verified_at = Timestamp::new(i64::MAX, 0);
    assert_eq!(
        result.to_value().err(),
        Some(SerializationError::Encode(EncodeError::Timestamp))
    );
}

#[test]
fn revocation_status_tokens() {
    assert_eq!(status_as_token(RevocationStatus::Valid), "ok");
    assert_eq!(status_as_token(RevocationStatus::Revoked), "revoked");
    assert_eq!(status_as_token(RevocationStatus::Unknown), "unknown");
    for status in [RevocationStatus::Valid, RevocationStatus::Revoked, RevocationStatus::Unknown] {
        assert_eq!(status_of_token(status_as_token(status)), Some(status));
    }
    assert_eq!(status_of_token("valid"), None);
    assert_eq!(status_of_token(""), None);
}
