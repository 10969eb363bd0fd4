//! Core types shared by the checkpoint, Merkle log and attestation modules.

use vstd::prelude::*;

verus! {

/// SHA-256 hash (32 bytes).
pub type Hash256 = [u8; 32];

/// The all-zero hash: root of an empty log and `prev_root` of a genesis checkpoint.
pub open spec fn zero_hash() -> Seq<u8> {
    Seq::new(32, |i: int| 0u8)
}

/// Ed25519 signature (64 bytes).
#[derive(Debug, Clone, Copy, PartialEq, Eq)]
pub struct SignatureBytes(pub [u8; 64]);

impl SignatureBytes {
    /// Wrap 64 signature bytes.
    pub fn from(bytes: [u8; 64]) -> (signature: SignatureBytes)
        ensures
            signature.0 == bytes,
    {
        SignatureBytes(bytes)
    }

    /// The 64 signature bytes.
    pub fn as_ref(&self) -> (bytes: &[u8; 64])
        ensures
            *bytes == self.0,
    {
        &self.0
    }
}

/// Robot identifier (unique per robot).
#[derive(Debug, Clone, PartialEq, Eq, Hash)]
pub struct RobotId(pub String);

impl RobotId {
    /// The identifier as text.
    pub fn to_string(&self) -> (text: String)
        ensures
            text@ == self.0@,
    {
        self.0.clone()
    }
}

/// Mission identifier (unique per mission).
#[derive(Debug, Clone, PartialEq, Eq, Hash)]
pub struct MissionId(pub String);

impl MissionId {
    /// The identifier as text.
    pub fn to_string(&self) -> (text: String)
        ensures
            text@ == self.0@,
    {
        self.0.clone()
    }
}

/// Trust mode for attestation.
#[derive(Debug, Clone, Copy, PartialEq, Eq, Structural)]
pub enum TrustMode {
    /// Full TEE attestation with hardware root-of-trust.
    Trusted,
    /// Secure Element + signed boot (lower assurance).
    SoftAttestation,
    /// Software-only signing (development/testing).
    Untrusted,
}

impl TrustMode {
    /// The name of the mode as shown to people.
    pub open spec fn display_name(self) -> Seq<char> {
        match self {
            TrustMode::Trusted => "Trusted"@,
            TrustMode::SoftAttestation => "Soft-Attestation"@,
            TrustMode::Untrusted => "Untrusted"@,
        }
    }

    /// The lowercase snake_case token that stands for the mode in serialized records.
    pub open spec fn token(self) -> Seq<char> {
        match self {
            TrustMode::Trusted => "trusted"@,
            TrustMode::SoftAttestation => "soft_attestation"@,
            TrustMode::Untrusted => "untrusted"@,
        }
    }

    /// The name of the mode as shown to people.
    pub fn to_string(&self) -> (text: String)
        ensures
            text@ == self.display_name(),
    {
        match self {
            TrustMode::Trusted => "Trusted".to_owned(),
            TrustMode::SoftAttestation => "Soft-Attestation".to_owned(),
            TrustMode::Untrusted => "Untrusted".to_owned(),
        }
    }

    /// The token that stands for the mode in serialized records.
    pub fn as_token(&self) -> (text: &'static str)
        ensures
            text@ == self.token(),
    {
        match self {
            TrustMode::Trusted => "trusted",
            TrustMode::SoftAttestation => "soft_attestation",
            TrustMode::Untrusted => "untrusted",
        }
    }
}

/// Model provenance information (supply chain security).
#[derive(Debug, Clone, PartialEq, Eq)]
pub struct ModelProvenance {
    /// Model name and version tag.
    pub name: String,
    /// Model binary + weights hash (SHA-256).
    pub model_hash: Hash256,
    /// Dataset hash (if available).
    pub dataset_hash: Option<Hash256>,
    /// Container image digest (e.g., sha256:...).
    pub container_digest: Option<String>,
    /// Sigstore/in-toto signature bundle.
    pub signature_bundle: Option<Vec<u8>>,
}

/// Determinism configuration for inference reproducibility.
#[derive(Debug, Clone, PartialEq, Eq)]
pub struct DeterminismConfig {
    /// RNG seed used for sampling.
    pub rng_seed: Option<u64>,
    /// Batch size.
    pub batch_size: u32,
    /// Deterministic mode flags (e.g., "cudnn_deterministic=true").
    pub flags: Option<Vec<String>>,
}

/// The RFC 3339 text that `chrono` writes for an instant given as seconds since the Unix
/// epoch and nanoseconds within the second; `None` for an instant outside its range.
pub uninterp spec fn rfc3339_text(secs: int, nanos: int) -> Option<Seq<char>>;

/// The instant that `chrono` reads from a text, as seconds and nanoseconds; `None` for a
/// text that it does not read as an instant.
pub uninterp spec fn rfc3339_instant(text: Seq<char>) -> Option<(int, int)>;

/// An instant in UTC: seconds since the Unix epoch, and nanoseconds within the second.
#[derive(Debug, Clone, Copy, PartialEq, Eq, Structural)]
pub struct Timestamp {
    pub secs: i64,
    pub nanos: u32,
}

/// Trusted: reads the wall clock with `chrono::Utc::now`. Nothing is promised of the result.
#[verifier::external_body]
fn chrono_now() -> (instant: (i64, u32)) {
    let at = chrono::Utc::now();
    (at.timestamp(), at.timestamp_subsec_nanos())
}

/// Trusted: writes an instant with `chrono::DateTime::to_rfc3339_opts`, with as many
/// fractional digits as the instant needs and `Z` for UTC. The contract names the text after
/// the instant; there is none where `chrono::DateTime::from_timestamp` refuses the instant.
#[verifier::external_body]
fn chrono_format(secs: i64, nanos: u32) -> (text: Option<String>)
    ensures
        text is Some <==> rfc3339_text(secs as int, nanos as int) is Some,
        text is Some ==> rfc3339_text(secs as int, nanos as int) == Some(text.unwrap()@),
{
    match chrono::DateTime::from_timestamp(secs, nanos) {
        Some(at) => Some(at.to_rfc3339_opts(chrono::SecondsFormat::AutoSi, true)),
        None => None,
    }
}

/// Trusted: reads an instant with the `FromStr` implementation of `chrono::DateTime<Utc>`.
/// The contract names the instant after the text.
#[verifier::external_body]
fn chrono_parse(text: &str) -> (instant: Option<(i64, u32)>)
    ensures
        instant is Some <==> rfc3339_instant(text@) is Some,
        instant is Some ==> rfc3339_instant(text@) == Some(
            (instant.unwrap().0 as int, instant.unwrap().1 as int),
        ),
{
    match text.parse::<chrono::DateTime<chrono::Utc>>() {
        Ok(at) => Some((at.timestamp(), at.timestamp_subsec_nanos())),
        Err(_) => None,
    }
}

/// The text that stands for an instant in serialized records: the RFC 3339 text of the
/// instant, provided that the text reads back as the same instant.
pub open spec fn timestamp_text(at: Timestamp) -> Option<Seq<char>> {
    match rfc3339_text(at.secs as int, at.nanos as int) {
        Some(text) => if rfc3339_instant(text) == Some((at.secs as int, at.nanos as int)) {
            Some(text)
        } else {
            None
        },
        None => None,
    }
}

/// The instant that a text stands for in serialized records: the one whose text it is.
pub open spec fn text_timestamp(text: Seq<char>) -> Option<Timestamp> {
    match rfc3339_instant(text) {
        Some((secs, nanos)) => {
            let at = Timestamp { secs: secs as i64, nanos: nanos as u32 };
            if i64::MIN <= secs <= i64::MAX && 0 <= nanos <= u32::MAX && timestamp_text(at)
                == Some(text) {
                Some(at)
            } else {
                None
            }
        },
        None => None,
    }
}

impl Timestamp {
    /// The instant `secs` seconds and `nanos` nanoseconds after the Unix epoch.
    pub fn new(secs: i64, nanos: u32) -> (at: Timestamp)
        ensures
            at.secs == secs,
            at.nanos == nanos,
    {
        Timestamp { secs, nanos }
    }

    /// The wall clock's present instant.
    pub fn now() -> Timestamp {
        let (secs, nanos) = chrono_now();
        Timestamp { secs, nanos }
    }

    /// The text that stands for this instant in serialized records, if it has one.
    pub fn to_text(&self) -> (text: Option<String>)
        ensures
            text is Some <==> timestamp_text(*self) is Some,
            text is Some ==> timestamp_text(*self) == Some(text.unwrap()@),
    {
        match chrono_format(self.secs, self.nanos) {
            None => None,
            Some(text) => match chrono_parse(text.as_str()) {
                None => None,
                Some((secs, nanos)) => if secs == self.secs && nanos == self.nanos {
                    Some(text)
                } else {
                    None
                },
            },
        }
    }

    /// The instant that `text` stands for in serialized records, if it stands for one.
    pub fn from_text(text: &str) -> (at: Option<Timestamp>)
        ensures
            at == text_timestamp(text@),
    {
        match chrono_parse(text) {
            None => None,
            Some((secs, nanos)) => {
                let at = Timestamp { secs, nanos };
                match at.to_text() {
                    None => None,
                    Some(again) => if same_text(again.as_str(), text) {
                        Some(at)
                    } else {
                        None
                    },
                }
            },
        }
    }
}

/// Whether two byte strings are equal.
pub fn same_bytes(a: &[u8], b: &[u8]) -> (same: bool)
    ensures
        same == (a@ == b@),
{
    if a.len() != b.len() {
        return false;
    }
    let mut i: usize = 0;
    while i < a.len()
        invariant
            a.len() == b.len(),
            i <= a.len(),
            forall|j: int| 0 <= j < i ==> a@[j] == b@[j],
        decreases a.len() - i,
    {
        if a[i] != b[i] {
            return false;
        }
        i += 1;
    }
    assert(a@ =~= b@);
    true
}

/// Whether two texts are equal.
pub fn same_text(a: &str, b: &str) -> (same: bool)
    ensures
        same == (a@ == b@),
{
    proof {
        vstd::utf8::encode_utf8_decode_utf8(a@);
        vstd::utf8::encode_utf8_decode_utf8(b@);
    }
    same_bytes(a.as_bytes(), b.as_bytes())
}

/// Revocation status for attestation.
#[derive(Debug, Clone, Copy, PartialEq, Eq, Structural)]
pub enum RevocationStatus {
    /// Attestation is valid, no revocation.
    Valid,
    /// Enclave measurement is on revocation list.
    Revoked,
    /// Could not check revocation (CRL unavailable, etc.).
    Unknown,
}

/// Attestation result from a verification adapter.
#[derive(Debug, Clone)]
pub struct AttestationResult {
    /// Vendor name (e.g., "intel-sgx", "aws-nitro", "arm-trustzone").
    pub vendor: String,
    /// Enclave/TEE measurement (code hash).
    pub enclave_measurement: Vec<u8>,
    /// Whether the attestation quote was verified successfully.
    pub quote_verified: bool,
    /// Instant of verification.
    pub verified_at: Timestamp,
    /// Revocation check status.
    pub revoke_check: RevocationStatus,
    /// Raw attestation quote (vendor-specific format).
    pub raw_quote: Option<Vec<u8>>,
    /// PCK certificate chain (Intel SGX only).
    pub pck_chain: Option<String>,
}

} // verus!
