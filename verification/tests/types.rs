use robot_attestation::types::{same_bytes, same_text};
use robot_attestation::{
    MissionId, RevocationStatus, RobotId, SignatureBytes, Timestamp, TrustMode, VERSION,
};

#[test]
fn test_version() {
    assert_eq!(VERSION, "0.1.0");
}

#[test]
fn test_trust_mode_display() {
    assert_eq!(TrustMode::Trusted.to_string(), "Trusted");
    assert_eq!(TrustMode::SoftAttestation.to_string(), "Soft-Attestation");
    assert_eq!(TrustMode::Untrusted.to_string(), "Untrusted");
}

#[test]
fn test_robot_id() {
    let id = RobotId("R-001".to_string());
    assert_eq!(id.to_string(), "R-001");
}

#[test]
fn mission_id_as_text() {
    let id = MissionId("M-2025-10-11-01".to_string());
    assert_eq!(id.to_string(), "M-2025-10-11-01");
    assert_eq!(id, MissionId("M-2025-10-11-01".to_string()));
    assert_ne!(id, MissionId("M-2025-10-11-02".to_string()));
}

#[test]
fn trust_mode_tokens_are_lowercase_snake_case() {
    assert_eq!(TrustMode::Trusted.as_token(), "trusted");
    assert_eq!(TrustMode::SoftAttestation.as_token(), "soft_attestation");
    assert_eq!(TrustMode::Untrusted.as_token(), "untrusted");
}

#[test]
fn signature_bytes_wrap_64_bytes() {
    let signature = SignatureBytes::from([7u8; 64]);
    assert_eq!(signature.as_ref(), &[7u8; 64]);
    assert_eq!(signature, SignatureBytes([7u8; 64]));
}

#[test]
fn timestamp_text_is_rfc3339_in_utc() {
    assert_eq!(Timestamp::new(0, 0).to_text(), Some("1970-01-01T00:00:00Z".to_string()));
    assert_eq!(
        Timestamp::new(1_760_184_000, 0).to_text(),
        Some("2025-10-11T12:00:00Z".to_string())
    );
    assert_eq!(
        Timestamp::new(1_760_184_000, 500_000_000).to_text(),
        Some("2025-10-11T12:00:00.500Z".to_string())
    );
    assert_eq!(
        Timestamp::new(1_760_184_000, 1).to_text(),
        Some("2025-10-11T12:00:00.000000001Z".to_string())
    );
    assert_eq!(Timestamp::new(-1, 0).to_text(), Some("1969-12-31T23:59:59Z".to_string()));
}

#[test]
fn timestamp_outside_the_calendar_has_no_text() {
    assert_eq!(Timestamp::new(i64::MAX, 0).to_text(), None);
    assert_eq!(Timestamp::new(i64::MIN, 0).to_text(), None);
    assert_eq!(Timestamp::new(0, 2_000_000_000).to_text(), None);
}

#[test]
fn timestamp_is_read_from_its_own_text_only() {
    assert_eq!(
        Timestamp::from_text("2025-10-11T12:00:00Z"),
        Some(Timestamp::new(1_760_184_000, 0))
    );
    assert_eq!(
        Timestamp::from_text("2025-10-11T12:00:00.500Z"),
        Some(Timestamp::new(1_760_184_000, 500_000_000))
    );
    // the same instant, written otherwise
    assert_eq!(Timestamp::from_text("2025-10-11T12:00:00+00:00"), None);
    assert_eq!(Timestamp::from_text("2025-10-11T14:00:00+02:00"), None);
    assert_eq!(Timestamp::from_text("2025-10-11T12:00:00.5Z"), None);
    assert_eq!(Timestamp::from_text("yesterday"), None);
    assert_eq!(Timestamp::from_text(""), None);
}

#[test]
fn timestamp_text_round_trips() {
    for at in [
        Timestamp::new(0, 0),
        Timestamp::new(1, 999_999_999),
        Timestamp::new(1_760_184_000, 123_456_000),
        Timestamp::new(-86_400, 0),
        Timestamp::new(253_402_300_799, 0),
    ] {
        let text = at.to_text().unwrap();
        assert_eq!(Timestamp::from_text(&text), Some(at));
    }
}

#[test]
fn now_is_after_2020_and_has_a_text() {
    let now = Timestamp::now();
    assert!(now.secs > 1_577_836_800);
    assert!(now.to_text().is_some());
}

#[test]
fn same_bytes_and_same_text() {
    assert!(same_bytes(b"abc", b"abc"));
    assert!(!same_bytes(b"abc", b"abd"));
    assert!(!same_bytes(b"abc", b"ab"));
    assert!(same_bytes(b"", b""));
    assert!(same_text("intel-sgx", "intel-sgx"));
    assert!(!same_text("intel-sgx", "intel-tdx"));
}

#[test]
fn revocation_status_has_three_values() {
    assert_ne!(RevocationStatus::Valid, RevocationStatus::Revoked);
    assert_ne!(RevocationStatus::Valid, RevocationStatus::Unknown);
    assert_ne!(RevocationStatus::Revoked, RevocationStatus::Unknown);
}
