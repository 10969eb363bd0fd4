use p256::ecdsa::signature::Signer;
use robot_attestation::sgx::dcap::{TcbComponents, TcbInfo, TcbLevel};
use robot_attestation::sgx::pck::{
    is_revoked, parse_pem_chain, read_certificates, read_pck_key, read_reported_tcb,
    read_revoked_serials, read_root_key, verify_pck_chain, PckError,
};
use robot_attestation::sgx::quote::{parse_sgx_quote_v3, verify_key_certification, QuoteError};
use robot_attestation::sgx::tcb::{
    find_member, find_member_uint, is_hex_of, is_level_reached, is_tcb_acceptable, platform_tcb,
    read_element, PlatformTcb,
};
use robot_attestation::sgx::{SgxConfig, SgxDcapAdapter, TrustAnchors, INTEL_SGX_ROOT_CA};
use robot_attestation::{AttestationError, RevocationStatus, Timestamp};
use std::str::FromStr;
use std::time::Duration;
use x509_cert::der::asn1::{BitString, OctetString, UtcTime};
use x509_cert::der::Encode;
use x509_cert::name::Name;
use x509_cert::serial_number::SerialNumber;
use x509_cert::spki::{AlgorithmIdentifierOwned, ObjectIdentifier, SubjectPublicKeyInfoOwned};
use x509_cert::time::{Time, Validity};

const NOT_BEFORE: u64 = 1_700_000_000;
const NOT_AFTER: u64 = 1_800_000_000;
const NOW: i64 = 1_760_184_000;

fn key(seed: u8) -> p256::ecdsa::SigningKey {
    p256::ecdsa::SigningKey::from_slice(&[seed; 32]).unwrap()
}

fn ecdsa_with_sha256() -> AlgorithmIdentifierOwned {
    AlgorithmIdentifierOwned {
        oid: ObjectIdentifier::new_unwrap("1.2.840.10045.4.3.2"),
        parameters: None,
    }
}

fn time(secs: u64) -> Time {
    Time::UtcTime(UtcTime::from_unix_duration(Duration::from_secs(secs)).unwrap())
}

fn sign(signer: &p256::ecdsa::SigningKey, body: &[u8]) -> BitString {
    let signature: p256::ecdsa::Signature = signer.sign(body);
    BitString::from_bytes(signature.to_der().as_bytes()).unwrap()
}

const SGX_OID: [u8; 9] = [0x2a, 0x86, 0x48, 0x86, 0xf8, 0x4d, 0x01, 0x0d, 0x01];
const FMSPC: [u8; 6] = [0x00, 0x90, 0x6e, 0xa1, 0x00, 0x00];

/// A DER element with the given tag and content.
fn der(tag: u8, content: &[u8]) -> Vec<u8> {
    let mut out = vec![tag];
    if content.len() < 0x80 {
        out.push(content.len() as u8);
    } else if content.len() < 0x100 {
        out.extend_from_slice(&[0x81, content.len() as u8]);
    } else {
        out.extend_from_slice(&[0x82, (content.len() >> 8) as u8, content.len() as u8]);
    }
    out.extend_from_slice(content);
    out
}

/// A DER INTEGER for a small number.
fn der_uint(value: u16) -> Vec<u8> {
    let content: Vec<u8> = if value < 0x80 {
        vec![value as u8]
    } else if value < 0x8000 {
        if value < 0x100 { vec![0, value as u8] } else { vec![(value >> 8) as u8, value as u8] }
    } else {
        vec![0, (value >> 8) as u8, value as u8]
    };
    der(0x02, &content)
}

/// A member of the SGX extension: a SEQUENCE of an object identifier and a value.
fn member(oid: &[u8], value: &[u8]) -> Vec<u8> {
    let mut content = der(0x06, oid);
    content.extend_from_slice(value);
    der(0x30, &content)
}

fn oid_under(base: &[u8], number: u8) -> Vec<u8> {
    let mut oid = base.to_vec();
    oid.push(number);
    oid
}

/// The value of an SGX extension that reports the given platform.
fn sgx_extension_value(fmspc: &[u8], components: &[u8; 16], pce_svn: u16) -> Vec<u8> {
    let tcb_oid = oid_under(&SGX_OID, 2);
    let mut tcb: Vec<u8> = Vec::new();
    for n in 1..=16u8 {
        tcb.extend_from_slice(&member(
            &oid_under(&tcb_oid, n),
            &der_uint(components[n as usize - 1] as u16),
        ));
    }
    tcb.extend_from_slice(&member(&oid_under(&tcb_oid, 17), &der_uint(pce_svn)));
    tcb.extend_from_slice(&member(&oid_under(&tcb_oid, 18), &der(0x04, &[0u8; 16])));
    let mut members = member(&oid_under(&SGX_OID, 1), &der(0x04, &[7u8; 16]));
    members.extend_from_slice(&member(&tcb_oid, &der(0x30, &tcb)));
    members.extend_from_slice(&member(&oid_under(&SGX_OID, 3), &der(0x04, &[0, 0])));
    members.extend_from_slice(&member(&oid_under(&SGX_OID, 4), &der(0x04, fmspc)));
    members.extend_from_slice(&member(&oid_under(&SGX_OID, 5), &der(0x0a, &[0])));
    der(0x30, &members)
}

/// The DER encoding of a certificate for `subject`, signed by `issuer`.
fn certificate(
    name: &str,
    serial: &[u8],
    subject: &p256::ecdsa::SigningKey,
    issuer: &p256::ecdsa::SigningKey,
    window: (u64, u64),
) -> Vec<u8> {
    certificate_with(name, serial, subject, issuer, window, None)
}

/// The DER encoding of a PCK certificate: a certificate with the SGX extension.
fn pck_certificate(
    serial: &[u8],
    issuer: &p256::ecdsa::SigningKey,
    window: (u64, u64),
    sgx: Vec<u8>,
) -> Vec<u8> {
    certificate_with("CN=leaf", serial, &key(3), issuer, window, Some(sgx))
}

fn up_to_date_extension() -> Vec<u8> {
    sgx_extension_value(&FMSPC, &[5u8; 16], 11)
}

fn certificate_with(
    name: &str,
    serial: &[u8],
    subject: &p256::ecdsa::SigningKey,
    issuer: &p256::ecdsa::SigningKey,
    window: (u64, u64),
    sgx: Option<Vec<u8>>,
) -> Vec<u8> {
    let extensions = sgx.map(|value| {
        vec![
            x509_cert::ext::Extension {
                extn_id: ObjectIdentifier::new_unwrap("2.5.29.15"),
                critical: true,
                extn_value: OctetString::new(vec![0x03, 0x02, 0x06, 0xc0]).unwrap(),
            },
            x509_cert::ext::Extension {
                extn_id: ObjectIdentifier::new_unwrap("1.2.840.113741.1.13.1"),
                critical: false,
                extn_value: OctetString::new(value).unwrap(),
            },
        ]
    });
    let body = x509_cert::TbsCertificate {
        version: if extensions.is_some() { x509_cert::Version::V3 } else { x509_cert::Version::V1 },
        serial_number: SerialNumber::new(serial).unwrap(),
        signature: ecdsa_with_sha256(),
        issuer: Name::from_str("CN=issuer").unwrap(),
        validity: Validity { not_before: time(window.0), not_after: time(window.1) },
        subject: Name::from_str(name).unwrap(),
        subject_public_key_info: SubjectPublicKeyInfoOwned::from_key(*subject.verifying_key())
            .unwrap(),
        issuer_unique_id: None,
        subject_unique_id: None,
        extensions,
    };
    let signature = sign(issuer, &body.to_der().unwrap());
    let cert = x509_cert::Certificate {
        tbs_certificate: body,
        signature_algorithm: ecdsa_with_sha256(),
        signature,
    };
    cert.to_der().unwrap()
}

/// The DER encoding of a revocation list that revokes the given serial numbers.
fn revocation_list(serials: &[&[u8]], issuer: &p256::ecdsa::SigningKey) -> Vec<u8> {
    let revoked: Vec<x509_cert::crl::RevokedCert> = serials
        .iter()
        .map(|serial| x509_cert::crl::RevokedCert {
            serial_number: SerialNumber::new(serial).unwrap(),
            revocation_date: time(NOT_BEFORE),
            crl_entry_extensions: None,
        })
        .collect();
    let body = x509_cert::crl::TbsCertList {
        version: x509_cert::Version::V2,
        signature: ecdsa_with_sha256(),
        issuer: Name::from_str("CN=issuer").unwrap(),
        this_update: time(NOT_BEFORE),
        next_update: None,
        revoked_certificates: if revoked.is_empty() { None } else { Some(revoked) },
        crl_extensions: None,
    };
    let signature = sign(issuer, &body.to_der().unwrap());
    let list = x509_cert::crl::CertificateList {
        tbs_cert_list: body,
        signature_algorithm: ecdsa_with_sha256(),
        signature,
    };
    list.to_der().unwrap()
}

#[allow(deprecated)]
fn pem(der: &[u8]) -> String {
    format!(
        "-----BEGIN CERTIFICATE-----\n{}\n-----END CERTIFICATE-----\n",
        base64::encode(der)
    )
}

fn asked(all: u8, pcesvn: u16) -> TcbComponents {
    TcbComponents {
        sgxtcbcomp01svn: all,
        sgxtcbcomp02svn: all,
        sgxtcbcomp03svn: all,
        sgxtcbcomp04svn: all,
        sgxtcbcomp05svn: all,
        sgxtcbcomp06svn: all,
        sgxtcbcomp07svn: all,
        sgxtcbcomp08svn: all,
        sgxtcbcomp09svn: all,
        sgxtcbcomp10svn: all,
        sgxtcbcomp11svn: all,
        sgxtcbcomp12svn: all,
        sgxtcbcomp13svn: all,
        sgxtcbcomp14svn: all,
        sgxtcbcomp15svn: all,
        sgxtcbcomp16svn: all,
        pcesvn,
    }
}

fn level(all: u8, pcesvn: u16, status: &str) -> TcbLevel {
    TcbLevel {
        tcb: asked(all, pcesvn),
        tcb_date: "2025-01-01T00:00:00Z".to_string(),
        tcb_status: status.to_string(),
    }
}

fn tcb_info(fmspc: &str, levels: Vec<TcbLevel>) -> TcbInfo {
    TcbInfo {
        version: 3,
        issue_date: "2025-10-01T00:00:00Z".to_string(),
        next_update: "2025-11-01T00:00:00Z".to_string(),
        fmspc: fmspc.to_string(),
        pce_id: "0000".to_string(),
        tcb_type: 0,
        tcb_evaluation_data_number: 17,
        tcb_levels: levels,
    }
}

/// TCB info for the platform of the test chain: SVNs of 4 and a PCE SVN of 10 are up to
/// date, lower ones are out of date.
fn cached_tcb_info() -> Vec<TcbInfo> {
    vec![
        tcb_info("00906EA20000", vec![level(0, 0, "UpToDate")]),
        tcb_info(
            "00906EA10000",
            vec![
                level(4, 10, "UpToDate"),
                level(2, 5, "OutOfDate"),
                level(0, 0, "Revoked"),
            ],
        ),
    ]
}

fn anchors(root: &[u8], crls: Vec<Vec<u8>>) -> TrustAnchors {
    TrustAnchors {
        root_ca_cert: pem(root),
        intermediate_certs: Vec::new(),
        crls,
        tcb_info: cached_tcb_info(),
        last_updated: Timestamp::new(NOW, 0),
    }
}

struct Chain {
    root: Vec<u8>,
    intermediate: Vec<u8>,
    leaf: Vec<u8>,
}

fn chain() -> Chain {
    let window = (NOT_BEFORE, NOT_AFTER);
    Chain {
        root: certificate("CN=root", &[1], &key(1), &key(1), window),
        intermediate: certificate("CN=intermediate", &[2], &key(2), &key(1), window),
        leaf: pck_certificate(&[3, 7], &key(2), window, up_to_date_extension()),
    }
}

fn chain_pem(c: &Chain) -> String {
    format!("{}{}{}", pem(&c.leaf), pem(&c.intermediate), pem(&c.root))
}

fn now() -> Timestamp {
    Timestamp::new(NOW, 0)
}

#[test]
fn a_chain_that_leads_to_the_root_is_accepted() {
    let c = chain();
    let trusted = anchors(&c.root, vec![]);
    assert!(verify_pck_chain(&chain_pem(&c), &trusted, now()).is_ok());
    // the root itself may be left out of the chain
    let short = format!("{}{}", pem(&c.leaf), pem(&c.intermediate));
    assert!(verify_pck_chain(&short, &trusted, now()).is_ok());
    // a chain must start with a PCK certificate
    for text in [pem(&c.intermediate), pem(&c.root), format!("{}{}", pem(&c.intermediate), pem(&c.root))] {
        assert!(matches!(verify_pck_chain(&text, &trusted, now()), Err(PckError::InvalidChain)));
    }
}

#[test]
fn the_fields_of_a_certificate_are_read() {
    let c = chain();
    let certs = read_certificates(&vec![c.leaf.clone(), c.root.clone()]).unwrap();
    assert_eq!(certs.len(), 2);
    assert_eq!(certs[0].serial, vec![3u8, 7]);
    assert_eq!(certs[0].not_before, NOT_BEFORE);
    assert_eq!(certs[0].not_after, NOT_AFTER);
    let point = key(3).verifying_key().to_encoded_point(false);
    assert_eq!(certs[0].public_key, point.as_bytes().to_vec());
    assert_eq!(certs[0].public_key.len(), 65);
    assert_ne!(certs[0].signed, c.leaf);
    assert!(c.leaf.windows(certs[0].signed.len()).any(|part| part == &certs[0].signed[..]));
    assert_eq!(certs[1].serial, vec![1u8]);
    assert!(certs[1].extensions.is_empty());
    assert_eq!(certs[0].extensions.len(), 2);
    assert_eq!(certs[0].extensions[0].0, vec![0x55u8, 0x1d, 0x0f]);
    assert_eq!(certs[0].extensions[1].0, SGX_OID.to_vec());
    assert_eq!(certs[0].extensions[1].1, up_to_date_extension());
    assert_eq!(read_root_key(&pem(&c.root)), Some(certs[1].public_key.clone()));
    assert_eq!(read_root_key("no certificate"), None);
    assert!(read_certificates(&vec![c.leaf.clone(), vec![1, 2, 3]]).is_none());
    assert_eq!(read_certificates(&vec![]).map(|certs| certs.len()), Some(0));
}

#[test]
fn an_empty_chain_is_invalid() {
    let c = chain();
    let trusted = anchors(&c.root, vec![]);
    assert!(matches!(verify_pck_chain("", &trusted, now()), Err(PckError::InvalidChain)));
    assert!(matches!(
        verify_pck_chain("no certificate here", &trusted, now()),
        Err(PckError::InvalidChain)
    ));
}

#[test]
fn a_chain_that_does_not_parse_is_a_parse_error() {
    let c = chain();
    let trusted = anchors(&c.root, vec![]);
    match verify_pck_chain("-----BEGIN CERTIFICATE-----\n*\n-----END CERTIFICATE-----", &trusted, now()) {
        Err(PckError::ParseError(message)) => assert!(message.starts_with("Base64 decode error: ")),
        _ => panic!("the chain is not refused"),
    }
    match verify_pck_chain(&pem(&[1, 2, 3]), &trusted, now()) {
        Err(PckError::ParseError(message)) => assert_eq!(message, "Invalid certificate"),
        _ => panic!("the chain is not refused"),
    }
    let mut cut = c.leaf.clone();
    cut.truncate(c.leaf.len() - 1);
    match verify_pck_chain(&pem(&cut), &trusted, now()) {
        Err(PckError::ParseError(message)) => assert_eq!(message, "Invalid certificate"),
        _ => panic!("the chain is not refused"),
    }
}

#[test]
fn a_certificate_that_its_successor_did_not_sign_makes_the_chain_invalid() {
    let c = chain();
    let trusted = anchors(&c.root, vec![]);
    // the leaf is signed by the intermediate, not by the root
    let skipped = format!("{}{}", pem(&c.leaf), pem(&c.root));
    assert!(matches!(verify_pck_chain(&skipped, &trusted, now()), Err(PckError::InvalidChain)));
    assert!(matches!(verify_pck_chain(&pem(&c.leaf), &trusted, now()), Err(PckError::InvalidChain)));
    // the order matters
    let reversed = format!("{}{}{}", pem(&c.root), pem(&c.intermediate), pem(&c.leaf));
    assert!(matches!(verify_pck_chain(&reversed, &trusted, now()), Err(PckError::InvalidChain)));
}

#[test]
fn a_changed_certificate_makes_the_chain_invalid() {
    let c = chain();
    let trusted = anchors(&c.root, vec![]);
    let sound = pck_certificate(&[3, 7], &key(2), (NOT_BEFORE, NOT_AFTER), up_to_date_extension());
    assert_eq!(sound, c.leaf);
    // the same certificate with another serial number, under the old signature
    let at = c.leaf.windows(4).position(|part| part == &[0x02u8, 0x02, 0x03, 0x07][..]).unwrap();
    let mut forged = c.leaf.clone();
    forged[at + 3] = 0x08;
    assert_eq!(read_certificates(&vec![forged.clone()]).unwrap()[0].serial, vec![3u8, 8]);
    let forged_chain = format!("{}{}", pem(&forged), pem(&c.intermediate));
    assert!(matches!(
        verify_pck_chain(&forged_chain, &trusted, now()),
        Err(PckError::InvalidChain)
    ));
    // a changed signature
    let mut resigned = c.leaf.clone();
    let last = resigned.len() - 1;
    resigned[last] ^= 0x01;
    let resigned_chain = format!("{}{}", pem(&resigned), pem(&c.intermediate));
    assert!(matches!(
        verify_pck_chain(&resigned_chain, &trusted, now()),
        Err(PckError::InvalidChain) | Err(PckError::ParseError(_))
    ));
}

#[test]
fn a_chain_under_another_root_is_invalid() {
    let c = chain();
    let other_root = certificate("CN=root", &[1], &key(9), &key(9), (NOT_BEFORE, NOT_AFTER));
    let others = anchors(&other_root, vec![]);
    assert!(matches!(
        verify_pck_chain(&chain_pem(&c), &others, now()),
        Err(PckError::InvalidChain)
    ));
    let intel = TrustAnchors::new(now());
    assert!(matches!(
        verify_pck_chain(&chain_pem(&c), &intel, now()),
        Err(PckError::InvalidChain)
    ));
    let unreadable = TrustAnchors {
        root_ca_cert: "no certificate".to_string(),
        intermediate_certs: Vec::new(),
        crls: Vec::new(),
        tcb_info: cached_tcb_info(),
        last_updated: now(),
    };
    assert!(matches!(
        verify_pck_chain(&chain_pem(&c), &unreadable, now()),
        Err(PckError::InvalidChain)
    ));
}

#[test]
fn the_clock_must_lie_in_every_validity_window() {
    let c = chain();
    let trusted = anchors(&c.root, vec![]);
    let pem_text = chain_pem(&c);
    for secs in [NOT_BEFORE as i64, NOW, NOT_AFTER as i64] {
        assert!(verify_pck_chain(&pem_text, &trusted, Timestamp::new(secs, 999_999_999)).is_ok());
    }
    for secs in [i64::MIN, -1, 0, NOT_BEFORE as i64 - 1, NOT_AFTER as i64 + 1, i64::MAX] {
        assert!(matches!(
            verify_pck_chain(&pem_text, &trusted, Timestamp::new(secs, 0)),
            Err(PckError::Expired)
        ));
    }
    // one certificate with a shorter window is enough
    let brief = pck_certificate(&[3, 7], &key(2), (NOT_BEFORE, NOW as u64 - 1), up_to_date_extension());
    let with_brief = format!("{}{}", pem(&brief), pem(&c.intermediate));
    assert!(matches!(verify_pck_chain(&with_brief, &trusted, now()), Err(PckError::Expired)));
    assert!(verify_pck_chain(&with_brief, &trusted, Timestamp::new(NOW - 1, 0)).is_ok());
}

#[test]
fn a_serial_number_in_a_cached_revocation_list_revokes_the_chain() {
    let c = chain();
    let pem_text = chain_pem(&c);
    let harmless = revocation_list(&[&[4], &[3, 8], &[7, 3]], &key(1));
    let empty = revocation_list(&[], &key(1));
    assert!(verify_pck_chain(&pem_text, &anchors(&c.root, vec![harmless.clone(), empty.clone()]), now()).is_ok());
    for serial in [&[3u8, 7][..], &[2u8][..], &[1u8][..]] {
        let list = revocation_list(&[&[4], serial], &key(1));
        let trusted = anchors(&c.root, vec![harmless.clone(), list]);
        assert!(matches!(verify_pck_chain(&pem_text, &trusted, now()), Err(PckError::Revoked)));
    }
    // the root's revocation does not touch a chain without it
    let list = revocation_list(&[&[1]], &key(1));
    let trusted = anchors(&c.root, vec![list]);
    let short = format!("{}{}", pem(&c.leaf), pem(&c.intermediate));
    assert!(verify_pck_chain(&short, &trusted, now()).is_ok());
}

#[test]
fn cached_revocation_data_that_is_no_list_is_a_parse_error() {
    let c = chain();
    let trusted = anchors(&c.root, vec![revocation_list(&[], &key(1)), vec![1, 2, 3]]);
    match verify_pck_chain(&chain_pem(&c), &trusted, now()) {
        Err(PckError::ParseError(message)) => {
            assert_eq!(message, "Invalid certificate revocation list")
        }
        _ => panic!("the revocation data is not refused"),
    }
}

#[test]
fn the_checks_come_in_order() {
    let c = chain();
    let list = revocation_list(&[&[3, 7]], &key(1));
    // invalid before expired before revoked
    let trusted = anchors(&c.root, vec![list, vec![0]]);
    let skipped = format!("{}{}", pem(&c.leaf), pem(&c.root));
    assert!(matches!(
        verify_pck_chain(&skipped, &trusted, Timestamp::new(0, 0)),
        Err(PckError::InvalidChain)
    ));
    assert!(matches!(
        verify_pck_chain(&chain_pem(&c), &trusted, Timestamp::new(0, 0)),
        Err(PckError::Expired)
    ));
}

fn chain_reporting(sgx: Option<Vec<u8>>) -> String {
    let c = chain();
    let leaf = certificate_with("CN=leaf", &[3, 7], &key(3), &key(2), (NOT_BEFORE, NOT_AFTER), sgx);
    format!("{}{}", pem(&leaf), pem(&c.intermediate))
}

#[test]
fn the_tcb_level_of_the_platform_must_be_up_to_date() {
    let c = chain();
    let trusted = anchors(&c.root, vec![]);
    for (components, pce_svn) in [([4u8; 16], 10u16), ([5u8; 16], 11), ([255u8; 16], 0xffff)] {
        let text = chain_reporting(Some(sgx_extension_value(&FMSPC, &components, pce_svn)));
        assert!(verify_pck_chain(&text, &trusted, now()).is_ok());
    }
    // one component below the level, or the PCE below it, reaches only a lower level
    let mut one_low = [5u8; 16];
    one_low[9] = 3;
    for (components, pce_svn) in [(one_low, 11u16), ([5u8; 16], 9), ([2u8; 16], 5), ([0u8; 16], 0)] {
        let text = chain_reporting(Some(sgx_extension_value(&FMSPC, &components, pce_svn)));
        assert!(matches!(verify_pck_chain(&text, &trusted, now()), Err(PckError::InvalidChain)));
    }
}

#[test]
fn a_platform_without_cached_tcb_info_is_refused() {
    let c = chain();
    let other_platform = chain_reporting(Some(sgx_extension_value(&[1, 2, 3, 4, 5, 6], &[9u8; 16], 99)));
    assert!(matches!(
        verify_pck_chain(&other_platform, &anchors(&c.root, vec![]), now()),
        Err(PckError::InvalidChain)
    ));
    let mut none_cached = anchors(&c.root, vec![]);
    none_cached.tcb_info = Vec::new();
    assert!(matches!(
        verify_pck_chain(&chain_pem(&c), &none_cached, now()),
        Err(PckError::InvalidChain)
    ));
    let mut no_level = anchors(&c.root, vec![]);
    no_level.tcb_info = vec![tcb_info("00906ea10000", vec![level(6, 0, "UpToDate")])];
    assert!(matches!(
        verify_pck_chain(&chain_pem(&c), &no_level, now()),
        Err(PckError::InvalidChain)
    ));
    // the first info for the platform counts, in either case of its hexadecimal digits
    let mut lower_case = anchors(&c.root, vec![]);
    lower_case.tcb_info = vec![
        tcb_info("00906ea10000", vec![level(5, 11, "UpToDate")]),
        tcb_info("00906EA10000", vec![level(0, 0, "Revoked")]),
    ];
    assert!(verify_pck_chain(&chain_pem(&c), &lower_case, now()).is_ok());
}

#[test]
fn a_first_certificate_without_a_readable_sgx_extension_is_refused() {
    let c = chain();
    let trusted = anchors(&c.root, vec![]);
    assert!(matches!(
        verify_pck_chain(&chain_reporting(None), &trusted, now()),
        Err(PckError::InvalidChain)
    ));
    for value in [vec![], vec![0x30, 0x00], vec![0x04, 0x01, 0x00], vec![0x30, 0x05, 0x01]] {
        assert!(matches!(
            verify_pck_chain(&chain_reporting(Some(value)), &trusted, now()),
            Err(PckError::InvalidChain)
        ));
    }
    let mut cut = up_to_date_extension();
    cut.truncate(up_to_date_extension().len() - 1);
    assert!(matches!(
        verify_pck_chain(&chain_reporting(Some(cut)), &trusted, now()),
        Err(PckError::InvalidChain)
    ));
}

#[test]
fn the_sgx_extension_reports_fmspc_and_svns() {
    let mut components = [0u8; 16];
    for i in 0..16 {
        components[i] = 120 + i as u8 * 9;
    }
    let value = sgx_extension_value(&FMSPC, &components, 0x1234);
    assert_eq!(
        platform_tcb(&value),
        Some(PlatformTcb { fmspc: FMSPC.to_vec(), components: components.to_vec(), pce_svn: 0x1234 })
    );
    let high = sgx_extension_value(&FMSPC, &[255u8; 16], 0xffff);
    assert_eq!(platform_tcb(&high).unwrap().pce_svn, 0xffff);
    assert_eq!(platform_tcb(&high).unwrap().components, vec![255u8; 16]);
    let c = chain();
    let certs = read_certificates(&vec![c.leaf.clone(), c.root.clone()]).unwrap();
    assert_eq!(read_reported_tcb(&certs[0]).unwrap().components, vec![5u8; 16]);
    assert_eq!(read_reported_tcb(&certs[0]).unwrap().pce_svn, 11);
    assert_eq!(read_reported_tcb(&certs[1]), None);
    // an FMSPC of another length is none
    assert_eq!(platform_tcb(&sgx_extension_value(&[1, 2, 3, 4, 5], &[1u8; 16], 1)), None);
}

#[test]
fn der_elements_and_members_are_read() {
    let bytes = [0x30u8, 0x03, 0x02, 0x01, 0x05, 0x04, 0x81, 0x02, 0xaa, 0xbb];
    assert_eq!(read_element(&bytes, 0), Some((0x30, 2, 5)));
    assert_eq!(read_element(&bytes, 2), Some((0x02, 4, 5)));
    assert_eq!(read_element(&bytes, 5), Some((0x04, 8, 10)));
    assert_eq!(read_element(&bytes, 9), None);
    assert_eq!(read_element(&bytes, 10), None);
    assert_eq!(read_element(&[0x04, 0x05, 0x00], 0), None);
    assert_eq!(read_element(&[0x04, 0x84, 0, 0, 0, 1, 9], 0), None);
    let long = der(0x04, &[7u8; 300]);
    assert_eq!(read_element(&long, 0), Some((0x04, 4, 304)));

    let mut members = member(&[1, 1], &der_uint(5));
    members.extend_from_slice(&member(&[1, 2], &der_uint(200)));
    members.extend_from_slice(&member(&[1, 3], &der(0x04, &[9])));
    let end = members.len();
    assert_eq!(find_member_uint(&members, 0, end, &[1, 1], 255), Some(5));
    assert_eq!(find_member_uint(&members, 0, end, &[1, 2], 255), Some(200));
    assert_eq!(find_member_uint(&members, 0, end, &[1, 2], 199), None);
    assert_eq!(find_member_uint(&members, 0, end, &[1, 3], 255), None);
    assert_eq!(find_member_uint(&members, 0, end, &[1, 4], 255), None);
    assert_eq!(find_member(&members, 0, end, &[1, 3]).map(|found| found.0), Some(0x04));
    assert_eq!(find_member(&members, 0, 0, &[1, 1]), None);
    assert_eq!(find_member(&members, 0, end - 1, &[1, 3]), None);
}

#[test]
fn hexadecimal_text_of_either_case_spells_bytes() {
    assert!(is_hex_of("00906EA10000", &FMSPC));
    assert!(is_hex_of("00906ea10000", &FMSPC));
    assert!(is_hex_of("00906eA10000", &FMSPC));
    assert!(is_hex_of("", &[]));
    assert!(!is_hex_of("00906EA1000", &FMSPC));
    assert!(!is_hex_of("00906EA100000", &FMSPC));
    assert!(!is_hex_of("00906EA10001", &FMSPC));
    assert!(!is_hex_of("00906EG10000", &FMSPC));
    assert!(!is_hex_of("0x906EA10000", &FMSPC));
    assert!(is_hex_of("ff0A", &[0xff, 0x0a]));
}

#[test]
fn the_first_level_that_the_platform_reaches_gives_its_status() {
    let platform = PlatformTcb { fmspc: FMSPC.to_vec(), components: vec![3u8; 16], pce_svn: 7 };
    assert!(is_level_reached(&platform, &level(3, 7, "UpToDate")));
    assert!(!is_level_reached(&platform, &level(4, 7, "UpToDate")));
    assert!(!is_level_reached(&platform, &level(3, 8, "UpToDate")));
    let mut tenth = asked(3, 7);
    tenth.sgxtcbcomp10svn = 4;
    let tenth_higher = TcbLevel { tcb: tenth, tcb_date: String::new(), tcb_status: "UpToDate".to_string() };
    assert!(!is_level_reached(&platform, &tenth_higher));
    let short = PlatformTcb { fmspc: FMSPC.to_vec(), components: vec![3u8; 15], pce_svn: 7 };
    assert!(!is_level_reached(&short, &level(0, 0, "UpToDate")));

    let info = |levels: Vec<TcbLevel>| vec![tcb_info("00906EA10000", levels)];
    assert!(is_tcb_acceptable(&info(vec![level(4, 7, "Revoked"), level(3, 7, "UpToDate")]), &platform));
    assert!(!is_tcb_acceptable(&info(vec![level(3, 7, "OutOfDate"), level(0, 0, "UpToDate")]), &platform));
    assert!(!is_tcb_acceptable(&info(vec![level(3, 7, "uptodate")]), &platform));
    assert!(!is_tcb_acceptable(&info(vec![]), &platform));
    assert!(!is_tcb_acceptable(&vec![], &platform));
}

#[test]
fn revoked_serials_of_all_lists_are_read() {
    let first = revocation_list(&[&[4], &[5, 6]], &key(1));
    let second = revocation_list(&[], &key(1));
    let third = revocation_list(&[&[9]], &key(1));
    let serials = read_revoked_serials(&vec![first, second, third]).unwrap();
    assert_eq!(serials, vec![vec![4u8], vec![5, 6], vec![9]]);
    assert!(is_revoked(&[5, 6], &serials));
    assert!(!is_revoked(&[5], &serials));
    assert!(!is_revoked(&[], &serials));
    assert_eq!(read_revoked_serials(&vec![]), Some(vec![]));
    assert_eq!(read_revoked_serials(&vec![vec![0x30, 0x00]]), None);
}

#[test]
fn the_built_in_root_certificate_is_read() {
    let certs = read_certificates(&parse_pem_chain(INTEL_SGX_ROOT_CA).unwrap()).unwrap();
    assert_eq!(certs.len(), 1);
    assert_eq!(certs[0].not_before, 1_526_899_271);
    assert_eq!(certs[0].not_after, 2_000_284_870);
    assert_eq!(certs[0].serial.len(), 20);
    assert_eq!(certs[0].public_key.len(), 65);
    assert_eq!(certs[0].public_key[0], 4);
    assert_eq!(read_root_key(INTEL_SGX_ROOT_CA), Some(certs[0].public_key.clone()));
}

/// A signed quote that carries `chain`; its QE report commits to the attestation key and to
/// `auth`, and is signed by `pck`.
fn quote_with(chain: &str, pck: &p256::ecdsa::SigningKey, auth: &[u8]) -> Vec<u8> {
    let mut quote = vec![0u8; 480];
    quote[0] = 3;
    for i in 0..32 {
        quote[48 + 176 + i] = 0xa0 + i as u8;
    }
    let attestation = key(0x11);
    let signature: p256::ecdsa::Signature = attestation.sign(&quote[..480]);
    let mut data: Vec<u8> = signature.to_bytes().to_vec();
    data.extend_from_slice(&attestation.verifying_key().to_encoded_point(false).as_bytes()[1..]);
    let mut committed = data[64..128].to_vec();
    committed.extend_from_slice(auth);
    let mut report = vec![0x5au8; 384];
    report[320..352].copy_from_slice(&robot_attestation::crypto::sha256(&committed));
    let report_signature: p256::ecdsa::Signature = pck.sign(&report);
    data.extend_from_slice(&report);
    data.extend_from_slice(&report_signature.to_bytes());
    data.extend_from_slice(&(auth.len() as u16).to_le_bytes());
    data.extend_from_slice(auth);
    data.extend_from_slice(&5u16.to_le_bytes());
    data.extend_from_slice(&(chain.len() as u32).to_le_bytes());
    data.extend_from_slice(chain.as_bytes());
    quote.extend_from_slice(&(data.len() as u32).to_le_bytes());
    quote.extend_from_slice(&data);
    quote
}

fn quote_with_chain(chain: &str) -> Vec<u8> {
    quote_with(chain, &key(3), &[1, 2, 3, 4])
}

#[test]
fn the_pck_key_must_certify_the_attestation_key() {
    let c = chain();
    let text = chain_pem(&c);
    let sgx = adapter(anchors(&c.root, vec![]));
    for auth in [&[][..], &[9u8; 32][..]] {
        assert!(sgx.verify_quote_at(&quote_with(&text, &key(3), auth), None, now()).is_ok());
    }
    let refusal = |quote: &[u8]| match sgx.verify_quote_at(quote, None, now()) {
        Err(AttestationError::VerificationFailed(reason)) => reason,
        _ => panic!("the quote is not refused"),
    };
    // the QE report is signed by another key than the PCK key
    assert_eq!(refusal(&quote_with(&text, &key(2), &[1, 2])), "Invalid signature");
    let sound = quote_with(&text, &key(3), &[1, 2]);
    // a changed QE report, a changed signature over it, and changed authentication data
    for at in [484 + 128, 484 + 128 + 320, 484 + 511, 484 + 512, 484 + 575, 484 + 578] {
        let mut changed = sound.clone();
        changed[at] ^= 0x01;
        assert_eq!(refusal(&changed), "Invalid signature", "byte {}", at);
    }
    // an attestation key of the forger's own, signed with, but not what the QE report commits to
    let forger = key(0x77);
    let mut forged = sound.clone();
    let signature: p256::ecdsa::Signature = forger.sign(&forged[..480]);
    forged[484..484 + 64].copy_from_slice(&signature.to_bytes());
    forged[484 + 64..484 + 128]
        .copy_from_slice(&forger.verifying_key().to_encoded_point(false).as_bytes()[1..]);
    assert_eq!(refusal(&forged), "Invalid signature");
}

#[test]
fn key_certification_is_checked_on_its_own() {
    let c = chain();
    let quote = quote_with(&chain_pem(&c), &key(3), &[1, 2]);
    let parsed = parse_sgx_quote_v3(&quote).unwrap();
    let pck = read_pck_key(&chain_pem(&c)).unwrap();
    assert_eq!(pck, key(3).verifying_key().to_encoded_point(false).as_bytes().to_vec());
    assert!(verify_key_certification(&parsed, &pck).is_ok());
    let other = key(2).verifying_key().to_encoded_point(false).as_bytes().to_vec();
    assert!(matches!(
        verify_key_certification(&parsed, &other),
        Err(QuoteError::InvalidSignature)
    ));
    assert!(matches!(verify_key_certification(&parsed, &[]), Err(QuoteError::InvalidSignature)));
    // signature data that ends before the authentication data
    let mut short = vec![0u8; 480];
    short[0] = 3;
    short.extend_from_slice(&577u32.to_le_bytes());
    short.extend_from_slice(&quote[484..484 + 577]);
    let parsed = parse_sgx_quote_v3(&short).unwrap();
    assert!(matches!(verify_key_certification(&parsed, &pck), Err(QuoteError::InvalidSignature)));
    assert_eq!(read_pck_key(""), None);
    assert_eq!(read_pck_key(&pem(&[1, 2, 3])), None);
}

fn adapter(trusted: TrustAnchors) -> SgxDcapAdapter {
    SgxDcapAdapter::with_trust_anchors(SgxConfig::default(), trusted)
}

#[test]
fn adapter_accepts_a_quote_whose_chain_leads_to_its_root() {
    let c = chain();
    let text = chain_pem(&c);
    let quote = quote_with_chain(&text);
    let report = adapter(anchors(&c.root, vec![])).verify_quote_at(&quote, None, now()).unwrap();
    assert!(report.quote_verified);
    assert_eq!(report.pck_chain, Some(text));
    assert_eq!(report.verified_at, now());
    assert_eq!(report.revoke_check, RevocationStatus::Valid);
}

#[test]
fn adapter_refuses_a_quote_whose_chain_has_a_fault() {
    let c = chain();
    let quote = quote_with_chain(&chain_pem(&c));
    let refusal = |sgx: SgxDcapAdapter, at: Timestamp| match sgx.verify_quote_at(&quote, None, at) {
        Err(AttestationError::VerificationFailed(reason)) => reason,
        _ => panic!("the quote is not refused"),
    };
    assert_eq!(
        refusal(adapter(TrustAnchors::new(now())), now()),
        "Invalid certificate chain"
    );
    assert_eq!(
        refusal(adapter(anchors(&c.root, vec![])), Timestamp::new(NOT_AFTER as i64 + 1, 0)),
        "Certificate expired or not yet valid"
    );
    let list = revocation_list(&[&[2]], &key(1));
    assert_eq!(refusal(adapter(anchors(&c.root, vec![list])), now()), "Certificate revoked");
    assert_eq!(
        refusal(adapter(anchors(&c.root, vec![vec![9]])), now()),
        "Parse error: Invalid certificate revocation list"
    );
}

#[test]
fn adapter_checks_the_chain_before_the_signature() {
    let c = chain();
    let mut quote = quote_with_chain(&chain_pem(&c));
    quote[100] ^= 0x01;
    match adapter(anchors(&c.root, vec![])).verify_quote_at(&quote, None, now()) {
        Err(AttestationError::VerificationFailed(reason)) => assert_eq!(reason, "Invalid signature"),
        _ => panic!("the quote is not refused"),
    }
    match adapter(TrustAnchors::new(now())).verify_quote_at(&quote, None, now()) {
        Err(AttestationError::VerificationFailed(reason)) => {
            assert_eq!(reason, "Invalid certificate chain")
        }
        _ => panic!("the quote is not refused"),
    }
}
