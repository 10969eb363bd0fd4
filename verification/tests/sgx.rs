use robot_attestation::sgx::dcap::{check_status, DcapError, PcsClient};
use robot_attestation::sgx::pck::{parse_pem_chain, verify_pck_chain, PckError};
use robot_attestation::sgx::quote::{parse_sgx_quote_v3, verify_quote_signature, QuoteError};
use p256::ecdsa::signature::Signer;
use robot_attestation::sgx::{
    is_refresh_due, RefreshStep, SgxConfig, SgxDcapAdapter, TrustAnchors, DEFAULT_PCS_URL,
    INTEL_SGX_ROOT_CA,
};
use robot_attestation::text::{chars_of, find, matches_at, push_decimal};
use robot_attestation::{
    AttestationAdapter, AttestationError, AttestationRegistry, RevocationStatus, Timestamp,
};

/// A quote of 48 + 432 + 4 + `signature.len()` bytes with the given fields.
fn synthetic_quote(version: u16, attributes: u64, signature: &[u8]) -> Vec<u8> {
    let mut quote = vec![0u8; 48 + 432];
    quote[0..2].copy_from_slice(&version.to_le_bytes());
    quote[2..4].copy_from_slice(&2u16.to_le_bytes());
    quote[8..10].copy_from_slice(&0x0102u16.to_le_bytes());
    quote[10..12].copy_from_slice(&0x0304u16.to_le_bytes());
    let body: usize = 48;
    quote[body + 112..body + 120].copy_from_slice(&attributes.to_le_bytes());
    for i in 0..32 {
        quote[body + 176 + i] = 0xa0 + i as u8;
        quote[body + 240 + i] = 0x50 + i as u8;
    }
    for i in 0..64 {
        quote[body + 368 + i] = i as u8 + 1;
    }
    quote.extend_from_slice(&(signature.len() as u32).to_le_bytes());
    quote.extend_from_slice(signature);
    quote
}

fn attestation_key() -> p256::ecdsa::SigningKey {
    p256::ecdsa::SigningKey::from_slice(&[0x11u8; 32]).unwrap()
}

/// Signature data that starts with the signature of `key` over header and report body and
/// with the public key of `key`, followed by `rest`.
fn signature_data(header_and_body: &[u8], key: &p256::ecdsa::SigningKey, rest: &[u8]) -> Vec<u8> {
    let signature: p256::ecdsa::Signature = key.sign(header_and_body);
    let mut data: Vec<u8> = signature.to_bytes().to_vec();
    let point = key.verifying_key().to_encoded_point(false);
    data.extend_from_slice(&point.as_bytes()[1..]);
    assert_eq!(data.len(), 128);
    data.extend_from_slice(rest);
    data
}

/// What follows signature and key in the signature data: QE report, QE report signature,
/// QE authentication data, and certification data of the given type.
fn certification(auth: &[u8], kind: u16, data: &[u8]) -> Vec<u8> {
    let mut rest = vec![0u8; 384 + 64];
    rest.extend_from_slice(&(auth.len() as u16).to_le_bytes());
    rest.extend_from_slice(auth);
    rest.extend_from_slice(&kind.to_le_bytes());
    rest.extend_from_slice(&(data.len() as u32).to_le_bytes());
    rest.extend_from_slice(data);
    rest
}

/// A version-3 quote that is signed by the attestation key.
fn signed_quote(attributes: u64, rest: &[u8]) -> Vec<u8> {
    let unsigned = synthetic_quote(3, attributes, &[]);
    let data = signature_data(&unsigned[..480], &attestation_key(), rest);
    let mut quote = unsigned[..480].to_vec();
    quote.extend_from_slice(&(data.len() as u32).to_le_bytes());
    quote.extend_from_slice(&data);
    quote
}

fn mr_enclave() -> [u8; 32] {
    let mut out = [0u8; 32];
    for i in 0..32 {
        out[i] = 0xa0 + i as u8;
    }
    out
}

fn mr_signer() -> [u8; 32] {
    let mut out = [0u8; 32];
    for i in 0..32 {
        out[i] = 0x50 + i as u8;
    }
    out
}

#[test]
fn test_parse_invalid_quote_too_short() {
    let quote = vec![0u8; 10];
    let result = parse_sgx_quote_v3(&quote);
    assert!(matches!(result, Err(QuoteError::InvalidLength { .. })));
}

#[test]
fn test_parse_invalid_version() {
    let mut quote = vec![0u8; 512];
    quote[0] = 4; // Version 4 (unsupported)
    quote[1] = 0;
    let result = parse_sgx_quote_v3(&quote);
    assert!(matches!(result, Err(QuoteError::UnsupportedVersion(_))));
}

#[test]
fn test_parse_pem_chain_empty() {
    let result = parse_pem_chain("");
    assert!(result.is_ok());
    assert_eq!(result.unwrap().len(), 0);
}

#[test]
fn test_pcs_client_creation() {
    let client = PcsClient::new("https://api.trustedservices.intel.com".to_string());
    assert_eq!(client.base_url(), "https://api.trustedservices.intel.com");
}

#[test]
fn test_adapter_creation() {
    let adapter = SgxDcapAdapter::new();
    assert_eq!(adapter.vendor_name(), "intel-sgx");
}

#[test]
fn test_revocation_check() {
    let adapter = SgxDcapAdapter::new();
    let result = adapter.check_revocation(&[0u8; 32]);
    assert!(result.is_ok());
    assert_eq!(result.unwrap(), RevocationStatus::Valid);
}

#[test]
fn sgx_quote_parse() {
    let signature: Vec<u8> = (0..100u8).collect();
    let quote = synthetic_quote(3, 0, &signature);
    assert_eq!(quote.len(), 48 + 432 + 4 + 100);
    let parsed = parse_sgx_quote_v3(&quote).unwrap();
    assert_eq!(parsed.version, 3);
    assert_eq!(parsed.attestation_key_type, 2);
    assert_eq!(parsed.qe_svn, 0x0102);
    assert_eq!(parsed.pce_svn, 0x0304);
    assert_eq!(parsed.mr_enclave, mr_enclave());
    assert_eq!(parsed.mr_signer, mr_signer());
    assert!(!parsed.debug_mode);
    assert_eq!(parsed.signature, signature);
    assert_eq!(parsed.certification_data, None);
    // report data is the last 64 bytes of the body; the two ISV fields are read at its start
    let report_data: Vec<u8> = (1..=64u8).collect();
    assert_eq!(parsed.report_data.to_vec(), report_data);
    assert_eq!(parsed.isv_prod_id, 0x0201);
    assert_eq!(parsed.isv_svn, 0x0403);
    assert_eq!(parsed.signed_data, quote[..480].to_vec());
    assert!(matches!(verify_quote_signature(&parsed), Err(QuoteError::InvalidSignature)));
}

#[test]
fn quote_without_signature_data_has_an_invalid_signature() {
    let mut quote = vec![0u8; 484];
    quote[0] = 3;
    let parsed = parse_sgx_quote_v3(&quote).unwrap();
    assert!(parsed.signature.is_empty());
    assert!(matches!(verify_quote_signature(&parsed), Err(QuoteError::InvalidSignature)));
    for len in [1usize, 64, 127] {
        let parsed = parse_sgx_quote_v3(&synthetic_quote(3, 0, &vec![7u8; len])).unwrap();
        assert!(matches!(verify_quote_signature(&parsed), Err(QuoteError::InvalidSignature)));
    }
}

#[test]
fn quote_signature_is_over_header_and_report_body() {
    let quote = signed_quote(0, &[]);
    assert_eq!(quote.len(), 484 + 128);
    let parsed = parse_sgx_quote_v3(&quote).unwrap();
    assert!(verify_quote_signature(&parsed).is_ok());

    // a change to any signed byte, to the signature or to the key breaks it
    for at in [0usize, 9, 47, 48, 48 + 176, 479, 484, 484 + 63, 484 + 64, 484 + 127] {
        let mut changed = quote.clone();
        changed[at] ^= if at == 0 { 0 } else { 0x01 };
        if at == 0 {
            changed[2] ^= 0x01;
        }
        let parsed = parse_sgx_quote_v3(&changed).unwrap();
        assert!(
            matches!(verify_quote_signature(&parsed), Err(QuoteError::InvalidSignature)),
            "byte {}",
            at
        );
    }

    // what follows signature and key is not signed
    let longer = signed_quote(0, &[1, 2, 3]);
    assert!(verify_quote_signature(&parse_sgx_quote_v3(&longer).unwrap()).is_ok());
}

#[test]
fn quote_signature_under_another_key_is_invalid() {
    let unsigned = synthetic_quote(3, 0, &[]);
    let other = p256::ecdsa::SigningKey::from_slice(&[0x22u8; 32]).unwrap();
    let mut data = signature_data(&unsigned[..480], &other, &[]);
    let point = attestation_key().verifying_key().to_encoded_point(false);
    data[64..128].copy_from_slice(&point.as_bytes()[1..]);
    let quote = synthetic_quote(3, 0, &data);
    assert!(matches!(
        verify_quote_signature(&parse_sgx_quote_v3(&quote).unwrap()),
        Err(QuoteError::InvalidSignature)
    ));
}

#[test]
fn certification_data_of_the_pck_kind_is_extracted() {
    let chain = "-----BEGIN CERTIFICATE-----\nAQID\n-----END CERTIFICATE-----\n";
    let quote = signed_quote(0, &certification(&[9u8; 32], 5, chain.as_bytes()));
    let parsed = parse_sgx_quote_v3(&quote).unwrap();
    assert_eq!(parsed.certification_data, Some(chain.to_string()));

    let no_auth = signed_quote(0, &certification(&[], 5, chain.as_bytes()));
    assert_eq!(
        parse_sgx_quote_v3(&no_auth).unwrap().certification_data,
        Some(chain.to_string())
    );
    let empty = signed_quote(0, &certification(&[], 5, b""));
    assert_eq!(parse_sgx_quote_v3(&empty).unwrap().certification_data, Some(String::new()));
}

#[test]
fn certification_data_of_another_kind_or_cut_short_is_not_extracted() {
    let chain = b"-----BEGIN CERTIFICATE-----\nAQID\n-----END CERTIFICATE-----\n";
    for kind in [0u16, 1, 4, 6, 0x0500] {
        let quote = signed_quote(0, &certification(&[], kind, chain));
        assert_eq!(parse_sgx_quote_v3(&quote).unwrap().certification_data, None);
    }
    let full = certification(&[1, 2], 5, chain);
    for len in [0usize, 1, 447, 449, 450, 455, full.len() - 1] {
        let mut cut = full[..len].to_vec();
        if len > 450 {
            // the length of the authentication data still says 2
            cut[448] = 2;
        }
        let quote = signed_quote(0, &cut);
        assert_eq!(parse_sgx_quote_v3(&quote).unwrap().certification_data, None, "{}", len);
    }
    let not_text = signed_quote(0, &certification(&[], 5, &[0xff, 0xfe]));
    assert_eq!(parse_sgx_quote_v3(&not_text).unwrap().certification_data, None);
}

#[test]
fn debug_bit_is_bit_one_of_the_attributes() {
    assert!(parse_sgx_quote_v3(&synthetic_quote(3, 0x02, &[])).unwrap().debug_mode);
    assert!(parse_sgx_quote_v3(&synthetic_quote(3, 0x07, &[])).unwrap().debug_mode);
    assert!(!parse_sgx_quote_v3(&synthetic_quote(3, 0x01, &[])).unwrap().debug_mode);
    assert!(!parse_sgx_quote_v3(&synthetic_quote(3, 0xffff_ffff_ffff_fffd, &[])).unwrap().debug_mode);
    assert!(!parse_sgx_quote_v3(&synthetic_quote(3, 0x0200, &[])).unwrap().debug_mode);
}

#[test]
fn bytes_after_the_signature_are_ignored() {
    let mut quote = synthetic_quote(3, 0, &[1, 2, 3]);
    quote.extend_from_slice(&[9, 9, 9]);
    assert_eq!(parse_sgx_quote_v3(&quote).unwrap().signature, vec![1, 2, 3]);
}

#[test]
fn each_length_check_reports_what_it_expects() {
    for len in [0usize, 1, 10, 47] {
        match parse_sgx_quote_v3(&vec![0u8; len]) {
            Err(QuoteError::InvalidLength { expected, actual }) => {
                assert_eq!(expected, 48);
                assert_eq!(actual, len);
            }
            _ => panic!("a short header is not reported"),
        }
    }
    let full = synthetic_quote(3, 0, &[1, 2, 3, 4, 5]);
    for (len, wanted) in [(48usize, 480usize), (479, 480), (480, 484), (483, 484), (484, 489), (488, 489)] {
        match parse_sgx_quote_v3(&full[..len]) {
            Err(QuoteError::InvalidLength { expected, actual }) => {
                assert_eq!(expected, wanted);
                assert_eq!(actual, len);
            }
            _ => panic!("a short quote is not reported"),
        }
    }
    assert!(parse_sgx_quote_v3(&full[..489]).is_ok());
}

#[test]
fn the_version_is_checked_before_the_body() {
    for version in [0u16, 1, 2, 4, 0x0103, 0xffff] {
        let quote = synthetic_quote(version, 0, &[]);
        match parse_sgx_quote_v3(&quote[..48]) {
            Err(QuoteError::UnsupportedVersion(found)) => assert_eq!(found, version),
            _ => panic!("the version is not reported"),
        }
    }
}

#[test]
fn quote_errors_say_what_they_are() {
    assert_eq!(
        QuoteError::InvalidLength { expected: 48, actual: 10 }.to_string(),
        "Invalid quote length: expected at least 48, got 10"
    );
    assert_eq!(QuoteError::UnsupportedVersion(4).to_string(), "Unsupported quote version: 4");
    assert_eq!(QuoteError::InvalidSignature.to_string(), "Invalid signature");
    assert_eq!(QuoteError::ParseError("x".to_string()).to_string(), "Parse error: x");
}

#[test]
fn adapter_verifies_a_production_quote() {
    let adapter = SgxDcapAdapter::new();
    let quote = signed_quote(0, &[1, 2, 3]);
    let report = adapter.verify_quote(&quote, None).unwrap();
    assert_eq!(report.vendor, "intel-sgx");
    assert_eq!(report.enclave_measurement, mr_enclave().to_vec());
    assert!(report.quote_verified);
    assert_eq!(report.revoke_check, RevocationStatus::Valid);
    assert_eq!(report.raw_quote, Some(quote));
    assert_eq!(report.pck_chain, None);
    assert!(report.verified_at.secs > 1_577_836_800);
}

#[test]
fn adapter_refuses_a_debug_enclave_unless_allowed() {
    let quote = signed_quote(0x02, &[]);
    match SgxDcapAdapter::new().verify_quote(&quote, None) {
        Err(AttestationError::VerificationFailed(reason)) => {
            assert_eq!(reason, "Debug enclaves are not allowed")
        }
        _ => panic!("the debug enclave is not refused"),
    }
    let lenient = SgxDcapAdapter::with_config(SgxConfig {
        pcs_url: DEFAULT_PCS_URL.to_string(),
        cache_expiry_secs: 60,
        allow_debug: true,
    });
    assert!(lenient.verify_quote(&quote, None).is_ok());
}

#[test]
fn adapter_reports_a_quote_that_does_not_parse() {
    let adapter = SgxDcapAdapter::new();
    match adapter.verify_quote(&[0u8; 10], None) {
        Err(AttestationError::InvalidQuote(reason)) => {
            assert_eq!(reason, "Invalid quote length: expected at least 48, got 10")
        }
        _ => panic!("the short quote is not reported"),
    }
    match adapter.verify_quote(&synthetic_quote(4, 0x02, &[]), None) {
        Err(AttestationError::InvalidQuote(reason)) => {
            assert_eq!(reason, "Unsupported quote version: 4")
        }
        _ => panic!("the version is not reported"),
    }
}

#[test]
fn adapter_reports_a_revoked_measurement() {
    let mut adapter = SgxDcapAdapter::new();
    adapter.revoke_measurement(vec![1u8; 32]);
    assert_eq!(adapter.check_revocation(&[0u8; 32]).unwrap(), RevocationStatus::Valid);
    assert_eq!(adapter.check_revocation(&[1u8; 32]).unwrap(), RevocationStatus::Revoked);
    adapter.revoke_measurement(mr_enclave().to_vec());
    let report = adapter.verify_quote(&signed_quote(0, &[]), None).unwrap();
    assert_eq!(report.revoke_check, RevocationStatus::Revoked);
}

#[test]
fn adapter_in_a_registry() {
    let mut registry = AttestationRegistry::new();
    registry.register(SgxDcapAdapter::default());
    assert_eq!(registry.vendors(), vec!["intel-sgx"]);
    let quote = signed_quote(0, &[]);
    let report = registry.verify_quote("intel-sgx", &quote, None).unwrap();
    assert_eq!(report.enclave_measurement, mr_enclave().to_vec());
    assert!(matches!(
        registry.verify_quote("aws-nitro", &quote, None),
        Err(AttestationError::UnsupportedVendor(_))
    ));
    assert!(registry.get_mut("intel-sgx").unwrap().update_trust_anchors().is_ok());
}

#[test]
fn adapter_refuses_a_quote_with_an_invalid_signature() {
    let adapter = SgxDcapAdapter::new();
    match adapter.verify_quote(&synthetic_quote(3, 0, &[1, 2, 3]), None) {
        Err(AttestationError::VerificationFailed(reason)) => assert_eq!(reason, "Invalid signature"),
        _ => panic!("the unsigned quote is not refused"),
    }
    let mut quote = signed_quote(0, &[]);
    quote[48 + 176] ^= 0x01;
    match adapter.verify_quote(&quote, None) {
        Err(AttestationError::VerificationFailed(reason)) => assert_eq!(reason, "Invalid signature"),
        _ => panic!("the changed quote is not refused"),
    }
}

#[test]
fn adapter_verifies_as_of_the_given_instant() {
    let adapter = SgxDcapAdapter::new();
    let at = Timestamp::new(1_760_184_000, 5);
    let report = adapter.verify_quote_at(&signed_quote(0, &[]), None, at).unwrap();
    assert_eq!(report.verified_at, at);
    assert_eq!(report.pck_chain, None);
}

#[test]
fn adapter_refuses_a_quote_whose_chain_is_refused() {
    let adapter = SgxDcapAdapter::new();
    let at = Timestamp::new(1_760_184_000, 0);
    let not_a_certificate = "-----BEGIN CERTIFICATE-----\nAQID\n-----END CERTIFICATE-----\n";
    let quote = signed_quote(0, &certification(&[], 5, not_a_certificate.as_bytes()));
    match adapter.verify_quote_at(&quote, None, at) {
        Err(AttestationError::VerificationFailed(reason)) => {
            assert_eq!(reason, "Parse error: Invalid certificate")
        }
        _ => panic!("the chain is not refused"),
    }
    let no_certificate = signed_quote(0, &certification(&[], 5, b"nothing"));
    match adapter.verify_quote_at(&no_certificate, None, at) {
        Err(AttestationError::VerificationFailed(reason)) => {
            assert_eq!(reason, "Invalid certificate chain")
        }
        _ => panic!("the empty chain is not refused"),
    }
}

#[test]
fn adapter_root_certificate_is_intels() {
    let adapter = SgxDcapAdapter::new();
    assert_eq!(adapter.root_ca_certs(), &[INTEL_SGX_ROOT_CA.to_string()]);
    assert!(INTEL_SGX_ROOT_CA.starts_with("-----BEGIN CERTIFICATE-----\nMIICjzCCAjSg"));
    let anchors = TrustAnchors::new(Timestamp::new(5, 0));
    assert_eq!(anchors.root_ca_cert, INTEL_SGX_ROOT_CA);
    assert!(anchors.crls.is_empty());
    assert_eq!(anchors.last_updated, Timestamp::new(5, 0));
    let certs = parse_pem_chain(INTEL_SGX_ROOT_CA).unwrap();
    assert_eq!(certs.len(), 1);
    assert_eq!(certs[0].len(), 659);
    assert_eq!(&certs[0][..4], &[0x30, 0x82, 0x02, 0x8f]);
}

#[test]
fn default_configuration() {
    let config = SgxConfig::default();
    assert_eq!(config.pcs_url, "https://api.trustedservices.intel.com/sgx/certification/v4");
    assert_eq!(config.cache_expiry_secs, 3600);
    assert!(!config.allow_debug);
}

#[test]
fn refresh_is_due_once_the_expiry_has_passed() {
    let last = Timestamp::new(1000, 500_000_000);
    assert!(!is_refresh_due(last, Timestamp::new(1000, 500_000_000), 3600));
    assert!(!is_refresh_due(last, Timestamp::new(4600, 499_999_999), 3600));
    assert!(is_refresh_due(last, Timestamp::new(4600, 500_000_000), 3600));
    assert!(is_refresh_due(last, Timestamp::new(10_000, 0), 3600));
    // a clock that went back
    assert!(!is_refresh_due(last, Timestamp::new(900, 0), 3600));
    assert!(!is_refresh_due(last, Timestamp::new(1000, 0), 0));
    assert!(is_refresh_due(last, last, 0));
    assert!(!is_refresh_due(Timestamp::new(i64::MAX, 0), Timestamp::new(i64::MIN, 0), u64::MAX));
    assert!(is_refresh_due(Timestamp::new(i64::MIN, 0), Timestamp::new(i64::MAX, 0), 1));
}

fn adapter_updated_at(last_updated: Timestamp) -> SgxDcapAdapter {
    SgxDcapAdapter::with_trust_anchors(
        SgxConfig {
            pcs_url: DEFAULT_PCS_URL.to_string(),
            cache_expiry_secs: 3600,
            allow_debug: false,
        },
        TrustAnchors::new(last_updated),
    )
}

#[test]
fn refresh_is_planned_once_the_cache_has_expired() {
    let adapter = adapter_updated_at(Timestamp::new(1000, 0));
    assert_eq!(adapter.plan_refresh(Timestamp::new(1000, 0)), RefreshStep::Fresh);
    assert_eq!(adapter.plan_refresh(Timestamp::new(4599, 999_999_999)), RefreshStep::Fresh);
    assert_eq!(adapter.plan_refresh(Timestamp::new(4600, 0)), RefreshStep::Fetch);
    assert_eq!(adapter.plan_refresh(Timestamp::new(0, 0)), RefreshStep::Fresh);
}

#[test]
fn fetched_anchors_replace_the_cached_ones_as_a_whole() {
    let mut adapter = adapter_updated_at(Timestamp::new(1000, 0));
    let fetched = TrustAnchors {
        root_ca_cert: "root".to_string(),
        intermediate_certs: vec!["intermediate".to_string()],
        crls: vec![vec![1, 2, 3]],
        tcb_info: Vec::new(),
        last_updated: Timestamp::new(7, 7),
    };
    let now = Timestamp::new(5000, 1);
    assert!(adapter.apply_refresh(now, Ok(fetched)).is_ok());
    let anchors = adapter.trust_anchors();
    assert_eq!(anchors.root_ca_cert, "root");
    assert_eq!(anchors.intermediate_certs, vec!["intermediate".to_string()]);
    assert_eq!(anchors.crls, vec![vec![1u8, 2, 3]]);
    assert!(anchors.tcb_info.is_empty());
    assert_eq!(anchors.last_updated, now);
    assert_eq!(adapter.root_ca_certs(), &["root".to_string()]);
    // right after a refresh nothing is to be fetched
    assert_eq!(adapter.plan_refresh(now), RefreshStep::Fresh);
    assert_eq!(adapter.plan_refresh(Timestamp::new(8599, 0)), RefreshStep::Fresh);
    assert_eq!(adapter.plan_refresh(Timestamp::new(8600, 1)), RefreshStep::Fetch);
}

#[test]
fn a_failed_fetch_leaves_the_anchors_in_place() {
    let mut adapter = adapter_updated_at(Timestamp::new(1000, 0));
    adapter.revoke_measurement(vec![1u8; 32]);
    let failed = Err(AttestationError::Network("timeout".to_string()));
    match adapter.apply_refresh(Timestamp::new(5000, 0), failed) {
        Err(AttestationError::Network(reason)) => assert_eq!(reason, "timeout"),
        _ => panic!("the failure is not handed on"),
    }
    let anchors = adapter.trust_anchors();
    assert_eq!(anchors.root_ca_cert, INTEL_SGX_ROOT_CA);
    assert!(anchors.crls.is_empty());
    assert_eq!(anchors.last_updated, Timestamp::new(1000, 0));
    assert_eq!(adapter.plan_refresh(Timestamp::new(5000, 0)), RefreshStep::Fetch);
    assert_eq!(adapter.check_revocation(&[1u8; 32]).unwrap(), RevocationStatus::Revoked);
}

#[test]
fn update_reports_expired_anchors_and_keeps_them() {
    let mut fresh = SgxDcapAdapter::new();
    assert!(fresh.update_trust_anchors().is_ok());
    let mut stale = adapter_updated_at(Timestamp::new(1000, 0));
    match stale.update_trust_anchors() {
        Err(AttestationError::Network(reason)) => {
            assert_eq!(reason, "trust anchors have expired: fetch them and apply the refresh")
        }
        _ => panic!("the expired anchors are not reported"),
    }
    assert_eq!(stale.trust_anchors().last_updated, Timestamp::new(1000, 0));
}

const DER_1: &str = "-----BEGIN CERTIFICATE-----\nAQID\n-----END CERTIFICATE-----";

#[test]
fn pem_chain_of_one_certificate() {
    assert_eq!(parse_pem_chain(DER_1).unwrap(), vec![vec![1u8, 2, 3]]);
}

#[test]
fn pem_chain_of_several_certificates() {
    let chain = format!(
        "{}\n-----BEGIN CERTIFICATE-----\r\n  /+7d\r\n  3Q==\r\n-----END CERTIFICATE-----\n\n{}\n",
        DER_1, DER_1
    );
    assert_eq!(
        parse_pem_chain(&chain).unwrap(),
        vec![vec![1u8, 2, 3], vec![0xff, 0xee, 0xdd, 0xdd], vec![1u8, 2, 3]]
    );
}

#[test]
fn pem_text_outside_certificates_is_skipped() {
    assert_eq!(parse_pem_chain("no certificate here").unwrap().len(), 0);
    assert_eq!(parse_pem_chain("-----END CERTIFICATE-----").unwrap().len(), 0);
    let chain = format!("subject=CN=x\n{}\ntrailer", DER_1);
    assert_eq!(parse_pem_chain(&chain).unwrap(), vec![vec![1u8, 2, 3]]);
}

#[test]
fn pem_certificate_without_its_closing_line_is_read() {
    assert_eq!(
        parse_pem_chain("-----BEGIN CERTIFICATE-----\nAQID\n").unwrap(),
        vec![vec![1u8, 2, 3]]
    );
}

#[test]
fn pem_block_with_two_opening_lines_gives_what_stands_between_them() {
    let chain = "-----BEGIN CERTIFICATE-----AQID-----BEGIN CERTIFICATE-----!!!-----END CERTIFICATE-----";
    assert_eq!(parse_pem_chain(chain).unwrap(), vec![vec![1u8, 2, 3]]);
}

#[test]
fn pem_white_space_of_any_kind_is_stripped() {
    let chain = "-----BEGIN CERTIFICATE-----\u{a0}A\u{2003}Q\u{3000}I\tD\u{85}-----END CERTIFICATE-----";
    assert_eq!(parse_pem_chain(chain).unwrap(), vec![vec![1u8, 2, 3]]);
}

#[test]
fn pem_certificate_that_is_not_base64_is_a_parse_error() {
    let chain = format!("{}\n-----BEGIN CERTIFICATE-----\n!!!!\n-----END CERTIFICATE-----", DER_1);
    match parse_pem_chain(&chain) {
        Err(PckError::ParseError(message)) => {
            assert!(message.starts_with("Base64 decode error: "), "{}", message);
            assert!(message.len() > "Base64 decode error: ".len());
        }
        _ => panic!("the certificate is not refused"),
    }
}

#[test]
fn pck_errors_say_what_they_are() {
    assert_eq!(PckError::InvalidChain.to_string(), "Invalid certificate chain");
    assert_eq!(PckError::Expired.to_string(), "Certificate expired or not yet valid");
    assert_eq!(PckError::Revoked.to_string(), "Certificate revoked");
    assert_eq!(PckError::ParseError("x".to_string()).to_string(), "Parse error: x");
}

#[test]
fn pcs_request_addresses() {
    let client = PcsClient::new("https://pcs.example/v4".to_string());
    assert_eq!(
        client.pck_certificate_url("00906ea10000", "0000"),
        "https://pcs.example/v4/pckcert?fmspc=00906ea10000&pceid=0000"
    );
    assert_eq!(
        client.pck_crl_url("processor"),
        "https://pcs.example/v4/pckcrl?ca=processor&encoding=der"
    );
    assert_eq!(
        client.pck_crl_url("platform"),
        "https://pcs.example/v4/pckcrl?ca=platform&encoding=der"
    );
    assert_eq!(client.tcb_info_url("00906ea10000"), "https://pcs.example/v4/tcb?fmspc=00906ea10000");
}

#[test]
fn pcs_status_outside_2xx_is_an_api_error() {
    for status in [200u16, 201, 204, 299] {
        assert!(check_status(status).is_ok());
    }
    for status in [0u16, 100, 199, 300, 304, 404, 500, 65535] {
        match check_status(status) {
            Err(DcapError::PcsApi(message)) => assert_eq!(message, format!("HTTP {}", status)),
            _ => panic!("status {} is not reported", status),
        }
    }
}

#[test]
fn decimal_numbers() {
    for (n, expected) in [
        (0u64, "0"),
        (7, "7"),
        (10, "10"),
        (48, "48"),
        (1_000_000, "1000000"),
        (u64::MAX, "18446744073709551615"),
    ] {
        let mut text = String::from("n=");
        push_decimal(&mut text, n);
        assert_eq!(text, format!("n={}", expected));
    }
}

#[test]
fn finding_a_pattern() {
    let text = chars_of("abcabcabd");
    let pattern = chars_of("abd");
    assert_eq!(text.len(), 9);
    assert_eq!(find(&text, &pattern, 0), 6);
    assert_eq!(find(&text, &pattern, 6), 6);
    assert_eq!(find(&text, &pattern, 7), 9);
    assert_eq!(find(&text, &chars_of("abc"), 1), 3);
    assert_eq!(find(&text, &chars_of("x"), 0), 9);
    assert_eq!(find(&text, &chars_of("abcabcabdx"), 0), 9);
    assert!(matches_at(&text, &pattern, 6));
    assert!(!matches_at(&text, &pattern, 7));
    assert!(!matches_at(&text, &pattern, 0));
    assert_eq!(chars_of("z\u{e9}\u{1f916}"), vec!['z', '\u{e9}', '\u{1f916}']);
}
