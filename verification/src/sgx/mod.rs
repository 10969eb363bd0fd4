//! Intel SGX DCAP (Data Center Attestation Primitives) attestation adapter.
//!
//! Verification of a quote: parse the SGX quote, apply the debug policy, verify the PCK
//! certificate chain where the quote carries one, verify the quote signature, check
//! revocation of the enclave measurement.

pub mod dcap;
pub mod pck;
pub mod quote;
pub mod tcb;

use crate::attestation::{never_unsupported, AttestationAdapter, AttestationError};
use crate::sgx::dcap::TcbInfo;
use crate::sgx::pck::{
    byte_views, chain_outcome, fault_message, pck_key, read_pck_key, verify_pck_chain, PckFault,
};
use crate::sgx::quote::{
    certification_text, key_certified, le_u32, le_u64, parse_sgx_quote_v3, quote_parse_error,
    quote_signature_holds, text_of, verify_key_certification, verify_quote_signature,
    QuoteError, ATTRIBUTES_DEBUG,
};
use crate::types::{same_bytes, AttestationResult, RevocationStatus, Timestamp};
use vstd::prelude::*;
use vstd::string::StringExecFns;

verus! {

/// The vendor name of this adapter.
pub const VENDOR_NAME: &'static str = "intel-sgx";

/// Intel's public Provisioning Certification Service, version 4.
pub const DEFAULT_PCS_URL: &'static str =
    "https://api.trustedservices.intel.com/sgx/certification/v4";

/// Default cache expiry for CRLs and certificates: one hour.
pub const DEFAULT_CACHE_EXPIRY_SECS: u64 = 3600;

/// The message with which a debug enclave is refused.
pub const DEBUG_REFUSED: &'static str = "Debug enclaves are not allowed";

/// Nanoseconds in a second.
pub const NANOS_PER_SEC: i128 = 1_000_000_000;

/// Intel SGX Root CA certificate (PEM).
pub const INTEL_SGX_ROOT_CA: &'static str = "-----BEGIN CERTIFICATE-----
MIICjzCCAjSgAwIBAgIUImUM1lqdNInzg7SVUr9QGzknBqwwCgYIKoZIzj0EAwIw
aDEaMBgGA1UEAwwRSW50ZWwgU0dYIFJvb3QgQ0ExGjAYBgNVBAoMEUludGVsIENv
cnBvcmF0aW9uMRQwEgYDVQQHDAtTYW50YSBDbGFyYTELMAkGA1UECAwCQ0ExCzAJ
BgNVBAYTAlVTMB4XDTE4MDUyMTEwNDExMVoXDTMzMDUyMTEwNDExMFowaDEaMBgG
A1UEAwwRSW50ZWwgU0dYIFJvb3QgQ0ExGjAYBgNVBAoMEUludGVsIENvcnBvcmF0
aW9uMRQwEgYDVQQHDAtTYW50YSBDbGFyYTELMAkGA1UECAwCQ0ExCzAJBgNVBAYT
AlVTMFkwEwYHKoZIzj0CAQYIKoZIzj0DAQcDQgAEC6nEwMDIYZOj/iPWsCzaEKi7
1OiOSLRFhWGjbnBVJfVnkY4u3IjkDYYL0MxO4mqsyYjlBalTVYxFP2sJBK5zlKOB
uzCBuDAfBgNVHSMEGDAWgBQiZQzWWp00ifODtJVSv1AbOScGrDBSBgNVHR8ESzBJ
MEegRaBDhkFodHRwczovL2NlcnRpZmljYXRlcy50cnVzdGVkc2VydmljZXMuaW50
ZWwuY29tL0ludGVsU0dYUm9vdENBLmNybDAdBgNVHQ4EFgQUImUM1lqdNInzg7SV
Ur9QGzknBqwwDgYDVR0PAQH/BAQDAgEGMBIGA1UdEwEB/wQIMAYBAf8CAQEwCgYI
KoZIzj0EAwIDSQAwRgIhAIpQ/KdMQPcbdLTq3ug17QPoGo3bILKQN8r0XiajmKOJ
AiEA3e5tYNTqoTasDpKQJ4dWqkWVyCUsKgVLfHUELxOCLjY=
-----END CERTIFICATE-----";

/// Configuration for SGX DCAP verification.
#[derive(Debug, Clone)]
pub struct SgxConfig {
    /// URL for Intel PCS (Provisioning Certification Service).
    pub pcs_url: String,
    /// Cache expiry for CRLs and certificates (seconds).
    pub cache_expiry_secs: u64,
    /// Allow debug enclaves (should be false in production).
    pub allow_debug: bool,
}

impl Default for SgxConfig {
    fn default() -> (config: SgxConfig)
        ensures
            config.pcs_url@ == DEFAULT_PCS_URL@,
            config.cache_expiry_secs == DEFAULT_CACHE_EXPIRY_SECS,
            !config.allow_debug,
    {
        SgxConfig {
            pcs_url: String::from_str(DEFAULT_PCS_URL),
            cache_expiry_secs: DEFAULT_CACHE_EXPIRY_SECS,
            allow_debug: false,
        }
    }
}

/// Trust anchors (root CA, CRLs) for SGX attestation.
#[derive(Debug, Clone)]
pub struct TrustAnchors {
    /// The root CA certificate (PEM) that every chain must lead to.
    pub root_ca_cert: String,
    /// Intermediate CA certificates (PEM).
    pub intermediate_certs: Vec<String>,
    /// Certificate revocation lists (DER).
    pub crls: Vec<Vec<u8>>,
    /// TCB info of the platforms whose quotes are to be accepted.
    pub tcb_info: Vec<TcbInfo>,
    /// The instant of the last refresh.
    pub last_updated: Timestamp,
}

impl TrustAnchors {
    /// The built-in anchors: Intel's root CA and nothing else, as of `now`.
    pub fn new(now: Timestamp) -> (anchors: TrustAnchors)
        ensures
            anchors.root_ca_cert@ == INTEL_SGX_ROOT_CA@,
            anchors.intermediate_certs@.len() == 0,
            anchors.crls@.len() == 0,
            anchors.tcb_info@.len() == 0,
            anchors.last_updated == now,
    {
        TrustAnchors {
            root_ca_cert: String::from_str(INTEL_SGX_ROOT_CA),
            intermediate_certs: Vec::new(),
            crls: Vec::new(),
            tcb_info: Vec::new(),
            last_updated: now,
        }
    }
}

impl Default for TrustAnchors {
    /// The built-in anchors, as of the wall clock's present instant.
    fn default() -> (anchors: TrustAnchors)
        ensures
            anchors.root_ca_cert@ == INTEL_SGX_ROOT_CA@,
            anchors.intermediate_certs@.len() == 0,
            anchors.crls@.len() == 0,
            anchors.tcb_info@.len() == 0,
    {
        TrustAnchors::new(Timestamp::now())
    }
}

/// The nanoseconds from `earlier` to `later`; negative if `later` comes first.
pub open spec fn elapsed_nanos(earlier: Timestamp, later: Timestamp) -> int {
    (later.secs - earlier.secs) * NANOS_PER_SEC + (later.nanos - earlier.nanos)
}

/// Whether cached anchors of `last_updated` are due for a refresh at `now`: they are not
/// while less than `expiry_secs` seconds have passed.
pub open spec fn refresh_due(last_updated: Timestamp, now: Timestamp, expiry_secs: u64) -> bool {
    elapsed_nanos(last_updated, now) >= expiry_secs * NANOS_PER_SEC
}

/// Whether cached anchors of `last_updated` are due for a refresh at `now`.
pub fn is_refresh_due(last_updated: Timestamp, now: Timestamp, expiry_secs: u64) -> (due: bool)
    ensures
        due == refresh_due(last_updated, now, expiry_secs),
{
    let seconds = now.secs as i128 - last_updated.secs as i128;
    let elapsed = seconds * NANOS_PER_SEC + (now.nanos as i128 - last_updated.nanos as i128);
    elapsed >= expiry_secs as i128 * NANOS_PER_SEC
}

/// Whether the quote's enclave attributes have the DEBUG bit set.
pub open spec fn debug_flagged(quote: Seq<u8>) -> bool {
    (le_u64(quote, 160) as u64) & ATTRIBUTES_DEBUG != 0
}

/// The enclave measurement (MRENCLAVE) that a complete quote carries.
pub open spec fn quote_measurement(quote: Seq<u8>) -> Seq<u8> {
    quote.subrange(224, 256)
}

/// The signature and authentication data that a complete quote carries.
pub open spec fn quote_signature_data(quote: Seq<u8>) -> Seq<u8> {
    quote.subrange(484, 484 + le_u32(quote, 480))
}

/// The bytes of a complete quote that its signature is taken over: header and report body.
pub open spec fn quote_signed_data(quote: Seq<u8>) -> Seq<u8> {
    quote.subrange(0, 480)
}

/// The revocation status of a measurement against a local revocation list.
pub open spec fn revocation_status(revoked: Seq<Seq<u8>>, measurement: Seq<u8>) -> RevocationStatus {
    if revoked.contains(measurement) {
        RevocationStatus::Revoked
    } else {
        RevocationStatus::Valid
    }
}

/// The fault of the PCK certificate chain that a complete quote carries, if it carries a
/// chain and the chain has a fault: see `chain_outcome`.
pub open spec fn quote_chain_fault(
    quote: Seq<u8>,
    anchors: TrustAnchors,
    now: Timestamp,
) -> Option<PckFault> {
    match certification_text(quote_signature_data(quote)) {
        Some(pem) => match chain_outcome(
            pem,
            anchors.root_ca_cert@,
            byte_views(anchors.crls@),
            anchors.tcb_info@,
            now.secs as int,
        ) {
            Err(fault) => Some(fault),
            Ok(_) => None,
        },
        None => None,
    }
}

/// Whether the attestation key of a complete quote that carries a PCK certificate chain
/// lacks certification by the chain's PCK key: see `key_certified`. A quote without a chain
/// has no PCK key to be certified by.
pub open spec fn quote_key_uncertified(quote: Seq<u8>) -> bool {
    match certification_text(quote_signature_data(quote)) {
        Some(pem) => match pck_key(pem) {
            Some(key) => !key_certified(quote_signature_data(quote), key),
            None => true,
        },
        None => false,
    }
}

/// Whether `result` reports a verified quote: vendor, measurement, revocation status, the
/// raw quote itself, the PCK chain that the quote carries, and the instant of verification.
pub open spec fn verified_result(
    result: AttestationResult,
    revoked: Seq<Seq<u8>>,
    quote: Seq<u8>,
    now: Timestamp,
) -> bool {
    &&& result.vendor@ == VENDOR_NAME@
    &&& result.enclave_measurement@ == quote_measurement(quote)
    &&& result.quote_verified
    &&& result.verified_at == now
    &&& result.revoke_check == revocation_status(revoked, quote_measurement(quote))
    &&& result.raw_quote is Some
    &&& result.raw_quote.unwrap()@ == quote
    &&& text_of(result.pck_chain) == certification_text(quote_signature_data(quote))
}

/// Whether `result` is the refusal of a quote with the given reason.
pub open spec fn refused_with(
    result: Result<AttestationResult, AttestationError>,
    reason: Seq<char>,
) -> bool {
    match result {
        Err(AttestationError::VerificationFailed(detail)) => detail@ == reason,
        _ => false,
    }
}

/// What verifying a quote at the instant `now` gives under a debug policy, a revocation
/// list and trust anchors. In this order: a quote that does not parse is an invalid quote,
/// with the parser's message; a debug enclave is refused unless the policy allows it; a
/// quote whose PCK certificate chain has a fault is refused with the fault's message; a
/// quote whose attestation key is not certified by the PCK key of its chain, or whose
/// ECDSA signature over header and report body does not verify under the attestation key,
/// is refused as having an invalid signature; every other quote is reported as verified.
pub open spec fn sgx_quote_verdict(
    allow_debug: bool,
    revoked: Seq<Seq<u8>>,
    anchors: TrustAnchors,
    now: Timestamp,
    quote: Seq<u8>,
    result: Result<AttestationResult, AttestationError>,
) -> bool {
    match quote_parse_error(quote) {
        Some(error) => match result {
            Err(AttestationError::InvalidQuote(detail)) => detail@ == error.message(),
            _ => false,
        },
        None => if debug_flagged(quote) && !allow_debug {
            refused_with(result, DEBUG_REFUSED@)
        } else {
            match quote_chain_fault(quote, anchors, now) {
                Some(fault) => refused_with(result, fault_message(fault)),
                None => if quote_key_uncertified(quote) || !quote_signature_holds(
                    quote_signature_data(quote),
                    quote_signed_data(quote),
                ) {
                    refused_with(result, QuoteError::InvalidSignature.message())
                } else {
                    match result {
                        Ok(report) => verified_result(report, revoked, quote, now),
                        Err(_) => false,
                    }
                },
            }
        },
    }
}

/// What to do about the trust anchors now.
#[derive(Debug, Clone, Copy, PartialEq, Eq, Structural)]
pub enum RefreshStep {
    /// The cached anchors are fresh; nothing is to be fetched.
    Fresh,
    /// The cache has expired: fetch CRLs and TCB info, and hand the outcome to
    /// `apply_refresh`.
    Fetch,
}

/// Intel SGX DCAP attestation adapter.
pub struct SgxDcapAdapter {
    config: SgxConfig,
    trust_anchors: TrustAnchors,
    root_certs: Vec<String>,
    revoked: Vec<Vec<u8>>,
}

fn copy_bytes(bytes: &[u8]) -> (copy: Vec<u8>)
    ensures
        copy@ == bytes@,
{
    vstd::slice::slice_to_vec(bytes)
}

fn copy_text(text: &Option<String>) -> (copy: Option<String>)
    ensures
        text_of(copy) == text_of(*text),
{
    match text {
        Some(present) => Some(present.clone()),
        None => None,
    }
}

/// The message for anchors that are due for a refresh in a library without a transport.
pub open spec fn refresh_needed() -> Seq<char> {
    "trust anchors have expired: fetch them and apply the refresh"@
}

impl SgxDcapAdapter {
    /// Whether the adapter accepts debug enclaves.
    pub closed spec fn allows_debug(&self) -> bool {
        self.config.allow_debug
    }

    /// The seconds for which cached trust anchors stay fresh.
    pub closed spec fn cache_expiry_secs(&self) -> u64 {
        self.config.cache_expiry_secs
    }

    /// The cached trust anchors.
    pub closed spec fn anchors(&self) -> TrustAnchors {
        self.trust_anchors
    }

    /// The instant of the last refresh of the trust anchors.
    pub open spec fn last_updated(&self) -> Timestamp {
        self.anchors().last_updated
    }

    /// The local revocation list: the measurements that are revoked.
    pub closed spec fn revoked_measurements(&self) -> Seq<Seq<u8>> {
        byte_views(self.revoked@)
    }

    /// The PEM-encoded root CA certificates of the adapter.
    pub closed spec fn root_certificates(&self) -> Seq<String> {
        self.root_certs@
    }

    /// Whether the adapter hands out the root CA certificate of its trust anchors, and
    /// nothing else, as its root certificates.
    pub open spec fn roots_match(&self) -> bool {
        self.root_certificates().len() == 1 && self.root_certificates()[0]@
            == self.anchors().root_ca_cert@
    }

    /// Create a new SGX DCAP adapter with default configuration.
    pub fn new() -> (adapter: SgxDcapAdapter)
        ensures
            !adapter.allows_debug(),
            adapter.cache_expiry_secs() == DEFAULT_CACHE_EXPIRY_SECS,
            adapter.revoked_measurements().len() == 0,
            adapter.anchors().root_ca_cert@ == INTEL_SGX_ROOT_CA@,
            adapter.anchors().crls@.len() == 0,
            adapter.roots_match(),
    {
        SgxDcapAdapter::with_config(SgxConfig::default())
    }

    /// Create a new SGX DCAP adapter with custom configuration. Its trust anchors are the
    /// built-in ones, as of now, and its revocation list is empty.
    pub fn with_config(config: SgxConfig) -> (adapter: SgxDcapAdapter)
        ensures
            adapter.allows_debug() == config.allow_debug,
            adapter.cache_expiry_secs() == config.cache_expiry_secs,
            adapter.revoked_measurements().len() == 0,
            adapter.anchors().root_ca_cert@ == INTEL_SGX_ROOT_CA@,
            adapter.anchors().crls@.len() == 0,
            adapter.roots_match(),
    {
        SgxDcapAdapter::with_trust_anchors(config, TrustAnchors::default())
    }

    /// Create a new SGX DCAP adapter with the given configuration and trust anchors. Its
    /// revocation list is empty.
    pub fn with_trust_anchors(config: SgxConfig, anchors: TrustAnchors) -> (adapter: SgxDcapAdapter)
        ensures
            adapter.allows_debug() == config.allow_debug,
            adapter.cache_expiry_secs() == config.cache_expiry_secs,
            adapter.revoked_measurements().len() == 0,
            adapter.anchors() == anchors,
            adapter.roots_match(),
    {
        let mut root_certs: Vec<String> = Vec::new();
        root_certs.push(anchors.root_ca_cert.clone());
        SgxDcapAdapter { config, trust_anchors: anchors, root_certs, revoked: Vec::new() }
    }

    /// The cached trust anchors.
    pub fn trust_anchors(&self) -> (anchors: &TrustAnchors)
        ensures
            *anchors == self.anchors(),
    {
        &self.trust_anchors
    }

    /// Put a measurement on the local revocation list.
    pub fn revoke_measurement(&mut self, measurement: Vec<u8>)
        ensures
            final(self).revoked_measurements() == old(self).revoked_measurements().push(
                measurement@,
            ),
            final(self).allows_debug() == old(self).allows_debug(),
            final(self).cache_expiry_secs() == old(self).cache_expiry_secs(),
            final(self).anchors() == old(self).anchors(),
            final(self).root_certificates() == old(self).root_certificates(),
    {
        let ghost before = byte_views(self.revoked@);
        self.revoked.push(measurement);
        assert(byte_views(self.revoked@) =~= before.push(measurement@));
    }

    /// The revocation status of a measurement against the local revocation list.
    fn revocation_of(&self, measurement: &[u8]) -> (status: RevocationStatus)
        ensures
            status == revocation_status(self.revoked_measurements(), measurement@),
    {
        let ghost list = byte_views(self.revoked@);
        let mut i: usize = 0;
        while i < self.revoked.len()
            invariant
                i <= self.revoked@.len(),
                list == byte_views(self.revoked@),
                forall|j: int| 0 <= j < i ==> list[j] != measurement@,
            decreases self.revoked@.len() - i,
        {
            if same_bytes(self.revoked[i].as_slice(), measurement) {
                assert(list[i as int] == measurement@);
                return RevocationStatus::Revoked;
            }
            i += 1;
        }
        RevocationStatus::Valid
    }

    /// Verify an SGX quote with DCAP, as of the instant `now`: parse the quote, apply the
    /// debug policy, verify the PCK certificate chain that the quote carries and that its
    /// PCK key certifies the attestation key, verify the quote's signature, and look the
    /// enclave measurement up in the revocation list.
    pub fn verify_quote_at(&self, quote_bytes: &[u8], nonce: Option<&[u8]>, now: Timestamp) -> (result:
        Result<AttestationResult, AttestationError>)
        ensures
            sgx_quote_verdict(
                self.allows_debug(),
                self.revoked_measurements(),
                self.anchors(),
                now,
                quote_bytes@,
                result,
            ),
    {
        let quote = match parse_sgx_quote_v3(quote_bytes) {
            Ok(quote) => quote,
            Err(error) => {
                return Err(AttestationError::InvalidQuote(error.to_string()));
            },
        };
        if quote.debug_mode && !self.config.allow_debug {
            return Err(AttestationError::VerificationFailed(String::from_str(DEBUG_REFUSED)));
        }
        match &quote.certification_data {
            Some(chain) => {
                match verify_pck_chain(chain.as_str(), &self.trust_anchors, now) {
                    Ok(_) => {},
                    Err(error) => {
                        return Err(AttestationError::VerificationFailed(error.to_string()));
                    },
                }
                let certified = match read_pck_key(chain.as_str()) {
                    Some(key) => verify_key_certification(&quote, key.as_slice()),
                    None => Err(QuoteError::InvalidSignature),
                };
                match certified {
                    Ok(_) => {},
                    Err(error) => {
                        return Err(AttestationError::VerificationFailed(error.to_string()));
                    },
                }
            },
            None => {},
        }
        match verify_quote_signature(&quote) {
            Ok(_) => {},
            Err(error) => {
                return Err(AttestationError::VerificationFailed(error.to_string()));
            },
        }
        let revoke_check = self.revocation_of(quote.mr_enclave.as_slice());
        Ok(
            AttestationResult {
                vendor: String::from_str(VENDOR_NAME),
                enclave_measurement: copy_bytes(quote.mr_enclave.as_slice()),
                quote_verified: true,
                verified_at: now,
                revoke_check,
                raw_quote: Some(copy_bytes(quote_bytes)),
                pck_chain: copy_text(&quote.certification_data),
            },
        )
    }

    /// What to do about the trust anchors at the instant `now`: nothing while less than the
    /// configured expiry has passed since the last refresh, and a fetch after that.
    pub fn plan_refresh(&self, now: Timestamp) -> (step: RefreshStep)
        ensures
            step == (if refresh_due(self.last_updated(), now, self.cache_expiry_secs()) {
                RefreshStep::Fetch
            } else {
                RefreshStep::Fresh
            }),
    {
        if is_refresh_due(self.trust_anchors.last_updated, now, self.config.cache_expiry_secs) {
            RefreshStep::Fetch
        } else {
            RefreshStep::Fresh
        }
    }

    /// Take the outcome of a fetch of trust anchors at the instant `now`. Fetched anchors
    /// replace the cached ones as a whole and carry the instant `now`; a failed fetch
    /// leaves the adapter as it was and hands its error on.
    pub fn apply_refresh(&mut self, now: Timestamp, fetched: Result<TrustAnchors, AttestationError>) -> (result:
        Result<(), AttestationError>)
        ensures
            fetched is Ok ==> result is Ok && final(self).anchors() == (TrustAnchors {
                last_updated: now,
                ..fetched.unwrap()
            }) && final(self).roots_match(),
            fetched is Err ==> result == Err::<(), AttestationError>(fetched.unwrap_err())
                && *final(self) == *old(self),
            final(self).allows_debug() == old(self).allows_debug(),
            final(self).cache_expiry_secs() == old(self).cache_expiry_secs(),
            final(self).revoked_measurements() == old(self).revoked_measurements(),
    {
        match fetched {
            Ok(anchors) => {
                let mut anchors = anchors;
                anchors.last_updated = now;
                let mut root_certs: Vec<String> = Vec::new();
                root_certs.push(anchors.root_ca_cert.clone());
                self.trust_anchors = anchors;
                self.root_certs = root_certs;
                Ok(())
            },
            Err(error) => Err(error),
        }
    }
}

impl Default for SgxDcapAdapter {
    fn default() -> (adapter: SgxDcapAdapter)
        ensures
            !adapter.allows_debug(),
            adapter.cache_expiry_secs() == DEFAULT_CACHE_EXPIRY_SECS,
            adapter.revoked_measurements().len() == 0,
            adapter.anchors().root_ca_cert@ == INTEL_SGX_ROOT_CA@,
            adapter.roots_match(),
    {
        SgxDcapAdapter::new()
    }
}

/// Whether `result` is what a check of the adapter's trust anchors at the instant `now`
/// gives: fresh anchors are fine, and expired ones are reported as a network error, since
/// the library has no transport to fetch new ones with.
pub open spec fn refresh_checked_at(
    adapter: SgxDcapAdapter,
    now: Timestamp,
    result: Result<(), AttestationError>,
) -> bool {
    match result {
        Ok(_) => !refresh_due(adapter.last_updated(), now, adapter.cache_expiry_secs()),
        Err(AttestationError::Network(detail)) => refresh_due(
            adapter.last_updated(),
            now,
            adapter.cache_expiry_secs(),
        ) && detail@ == refresh_needed(),
        Err(_) => false,
    }
}

/// Whether `result` is what a check of the adapter's trust anchors at some instant gives.
pub open spec fn refresh_answer(adapter: SgxDcapAdapter, result: Result<(), AttestationError>) -> bool {
    exists|now: Timestamp| #[trigger] refresh_checked_at(adapter, now, result)
}

impl AttestationAdapter for SgxDcapAdapter {
    open spec fn names_vendor(&self, name: Seq<char>) -> bool {
        name == VENDOR_NAME@
    }

    open spec fn quote_verdict(
        &self,
        quote: Seq<u8>,
        nonce: Option<Seq<u8>>,
        result: Result<AttestationResult, AttestationError>,
    ) -> bool {
        exists|now: Timestamp| #[trigger]
            sgx_quote_verdict(
                self.allows_debug(),
                self.revoked_measurements(),
                self.anchors(),
                now,
                quote,
                result,
            )
    }

    open spec fn revocation_verdict(
        &self,
        measurement: Seq<u8>,
        result: Result<RevocationStatus, AttestationError>,
    ) -> bool {
        match result {
            Ok(status) => status == revocation_status(self.revoked_measurements(), measurement),
            Err(_) => false,
        }
    }

    fn vendor_name(&self) -> (name: &str) {
        VENDOR_NAME
    }

    /// Verify a quote as of the wall clock's present instant: see `verify_quote_at`.
    fn verify_quote(&self, quote: &[u8], nonce: Option<&[u8]>) -> (result: Result<
        AttestationResult,
        AttestationError,
    >) {
        let now = Timestamp::now();
        self.verify_quote_at(quote, nonce, now)
    }

    fn check_revocation(&self, measurement: &[u8]) -> (result: Result<
        RevocationStatus,
        AttestationError,
    >) {
        Ok(self.revocation_of(measurement))
    }

    fn root_ca_certs(&self) -> (certs: &[String])
        ensures
            certs@ == self.root_certificates(),
    {
        self.root_certs.as_slice()
    }

    /// Check the trust anchors as of the wall clock's present instant. Fresh anchors are
    /// fine. Expired ones are reported as a network error and stay in place: fetching is
    /// the host's part, which plans with `plan_refresh` and hands what it fetched to
    /// `apply_refresh`.
    fn update_trust_anchors(&mut self) -> (result: Result<(), AttestationError>)
        ensures
            *final(self) == *old(self),
            refresh_answer(*old(self), result),
    {
        let now = Timestamp::now();
        let result = match self.plan_refresh(now) {
            RefreshStep::Fresh => Ok(()),
            RefreshStep::Fetch => Err(
                AttestationError::Network(
                    String::from_str("trust anchors have expired: fetch them and apply the refresh"),
                ),
            ),
        };
        assert(refresh_checked_at(*self, now, result));
        result
    }
}

/// The SGX adapter never reports a vendor as unsupported: it is one vendor's adapter.
pub proof fn lemma_sgx_never_unsupported(adapter: SgxDcapAdapter)
    ensures
        never_unsupported(adapter),
{
}

} // verus!
