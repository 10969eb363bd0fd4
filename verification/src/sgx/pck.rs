//! PCK (Provisioning Certification Key) certificate chain verification.

use crate::crypto::{p256_der_accepts, p256_verify_der};
use crate::sgx::dcap::TcbInfo;
use crate::sgx::tcb::{
    extension_tcb, is_tcb_acceptable, platform_tcb, sgx_oid, tcb_acceptable, PlatformTcb,
    PlatformTcbView,
};
use crate::sgx::TrustAnchors;
use crate::text::{chars_of, find, find_from};
use crate::types::{same_bytes, Timestamp};
use vstd::prelude::*;
use vstd::string::StringExecFns;
use x509_cert::der::{Decode, Encode};

verus! {

/// Why a PCK certificate chain is refused.
#[derive(Debug)]
pub enum PckError {
    /// The chain holds no certificate, or does not lead to the root.
    InvalidChain,
    /// A certificate is expired or not yet valid.
    Expired,
    /// A certificate is revoked.
    Revoked,
    /// The chain cannot be read; the message says why.
    ParseError(String),
}

/// Why a PCK certificate chain is refused, as a mathematical value.
pub enum PckFault {
    InvalidChain,
    Expired,
    Revoked,
    Parse(Seq<char>),
}

/// What a fault says, as shown to people.
pub open spec fn fault_message(fault: PckFault) -> Seq<char> {
    match fault {
        PckFault::InvalidChain => "Invalid certificate chain"@,
        PckFault::Expired => "Certificate expired or not yet valid"@,
        PckFault::Revoked => "Certificate revoked"@,
        PckFault::Parse(detail) => "Parse error: "@ + detail,
    }
}

impl PckError {
    /// The error as a mathematical value.
    pub open spec fn fault(self) -> PckFault {
        match self {
            PckError::InvalidChain => PckFault::InvalidChain,
            PckError::Expired => PckFault::Expired,
            PckError::Revoked => PckFault::Revoked,
            PckError::ParseError(detail) => PckFault::Parse(detail@),
        }
    }

    /// What the error says, as shown to people.
    pub open spec fn message(self) -> Seq<char> {
        fault_message(self.fault())
    }

    /// What the error says, as shown to people.
    pub fn to_string(&self) -> (text: String)
        ensures
            text@ == self.message(),
    {
        match self {
            PckError::InvalidChain => String::from_str("Invalid certificate chain"),
            PckError::Expired => String::from_str("Certificate expired or not yet valid"),
            PckError::Revoked => String::from_str("Certificate revoked"),
            PckError::ParseError(detail) => String::from_str("Parse error: ").concat(
                detail.as_str(),
            ),
        }
    }
}

/// What `base64::decode` gives for a text: the bytes it stands for, or the message of the
/// error with which decoding fails.
pub uninterp spec fn base64_decoding(text: Seq<char>) -> Result<Seq<u8>, Seq<char>>;

/// Trusted: decodes standard base64 with `base64::decode`. The contract names the outcome
/// after the text; an error is handed on as its message.
#[verifier::external_body]
fn base64_decode(text: &Vec<char>) -> (decoded: Result<Vec<u8>, String>)
    ensures
        decoded is Ok <==> base64_decoding(text@) is Ok,
        decoded is Ok ==> base64_decoding(text@) == Ok::<Seq<u8>, Seq<char>>(decoded.unwrap()@),
        decoded is Err ==> base64_decoding(text@) == Err::<Seq<u8>, Seq<char>>(
            decoded.unwrap_err()@,
        ),
{
    #[allow(deprecated)]
    match base64::decode(text.iter().collect::<String>()) {
        Ok(bytes) => Ok(bytes),
        Err(error) => Err(error.to_string()),
    }
}

/// The line that opens a certificate.
pub open spec fn begin_marker() -> Seq<char> {
    "-----BEGIN CERTIFICATE-----"@
}

/// The line that closes a certificate.
pub open spec fn end_marker() -> Seq<char> {
    "-----END CERTIFICATE-----"@
}

/// Whether a character is white space, as Unicode defines it.
pub open spec fn is_white_space(c: char) -> bool {
    let code = c as u32;
    (0x09 <= code <= 0x0d) || code == 0x20 || code == 0x85 || code == 0xa0 || code == 0x1680 || (
    0x2000 <= code <= 0x200a) || code == 0x2028 || code == 0x2029 || code == 0x202f || code
        == 0x205f || code == 0x3000
}

/// The text without its white space.
pub open spec fn without_white_space(text: Seq<char>) -> Seq<char> {
    text.filter(|c: char| !is_white_space(c))
}

/// The base64 text of the certificate in a block, if the block opens one: what stands
/// between the first opening marker and the next one, or the end of the block, without
/// white space. A block is the text up to a closing marker.
pub open spec fn block_body(block: Seq<char>) -> Option<Seq<char>> {
    let begin = find_from(block, begin_marker(), 0);
    if begin >= block.len() {
        None
    } else {
        let start = begin + begin_marker().len();
        let stop = find_from(block, begin_marker(), start);
        Some(without_white_space(block.subrange(start, stop)))
    }
}

/// The base64 texts of the certificates in a chain, from position `from` on: the chain is
/// cut at each closing marker, and each piece that opens a certificate gives one text.
pub open spec fn chain_bodies(pem: Seq<char>, from: int) -> Seq<Seq<char>>
    decreases pem.len() - from,
{
    let end = find_from(pem, end_marker(), from);
    if from < 0 || from > pem.len() || end < from {
        Seq::empty()
    } else {
        let here = match block_body(pem.subrange(from, end)) {
            Some(body) => seq![body],
            None => Seq::empty(),
        };
        let next = end + end_marker().len();
        if end >= pem.len() || next <= from || next > pem.len() {
            here
        } else {
            here + chain_bodies(pem, next)
        }
    }
}

/// What decoding the first `count` texts gives: the certificates, or the message of the
/// first text that fails to decode.
pub open spec fn decoded_bodies(bodies: Seq<Seq<char>>, count: nat) -> Result<
    Seq<Seq<u8>>,
    Seq<char>,
>
    decreases count,
{
    if count == 0 || count > bodies.len() {
        Ok(Seq::empty())
    } else {
        match decoded_bodies(bodies, (count - 1) as nat) {
            Err(message) => Err(message),
            Ok(certs) => match base64_decoding(bodies[count - 1]) {
                Err(message) => Err("Base64 decode error: "@ + message),
                Ok(cert) => Ok(certs.push(cert)),
            },
        }
    }
}

/// What parsing a PEM chain gives: the DER bytes of its certificates in order, or the
/// message of the first certificate that is not base64.
pub open spec fn parsed_chain(pem: Seq<char>) -> Result<Seq<Seq<u8>>, Seq<char>> {
    decoded_bodies(chain_bodies(pem, 0), chain_bodies(pem, 0).len())
}

/// The byte strings that a list of vectors holds.
pub open spec fn byte_views(certs: Seq<Vec<u8>>) -> Seq<Seq<u8>> {
    Seq::new(certs.len(), |i: int| certs[i]@)
}

/// The texts that a list of character vectors holds.
pub open spec fn char_views(texts: Seq<Vec<char>>) -> Seq<Seq<char>> {
    Seq::new(texts.len(), |i: int| texts[i]@)
}

fn white_space(c: char) -> (white: bool)
    ensures
        white == is_white_space(c),
{
    let code = c as u32;
    (0x09 <= code && code <= 0x0d) || code == 0x20 || code == 0x85 || code == 0xa0 || code
        == 0x1680 || (0x2000 <= code && code <= 0x200a) || code == 0x2028 || code == 0x2029 || code
        == 0x202f || code == 0x205f || code == 0x3000
}

fn strip_white_space(text: &[char], from: usize, to: usize) -> (stripped: Vec<char>)
    requires
        from <= to <= text.len(),
    ensures
        stripped@ == without_white_space(text@.subrange(from as int, to as int)),
{
    let ghost part = text@.subrange(from as int, to as int);
    let ghost keep = |c: char| !is_white_space(c);
    let mut stripped: Vec<char> = Vec::new();
    let mut i: usize = from;
    assert(part.take(0).filter(keep) =~= Seq::<char>::empty()) by {
        reveal(Seq::filter);
    }
    while i < to
        invariant
            from <= i <= to <= text.len(),
            part == text@.subrange(from as int, to as int),
            keep == (|c: char| !is_white_space(c)),
            stripped@ == part.take(i - from).filter(keep),
        decreases to - i,
    {
        proof {
            let before = part.take(i - from);
            let after = part.take(i - from + 1);
            assert(after.drop_last() =~= before);
            assert(after.last() == text@[i as int]);
            reveal(Seq::filter);
        }
        if !white_space(text[i]) {
            stripped.push(text[i]);
        }
        i += 1;
    }
    assert(part.take(to - from) =~= part);
    stripped
}

/// The base64 text of the certificate in the block from `from` to `to`, if it opens one.
fn body_of_block(text: &[char], from: usize, to: usize, begin: &[char]) -> (body: Option<
    Vec<char>,
>)
    requires
        from <= to <= text.len(),
        begin@ == begin_marker(),
    ensures
        body is Some <==> block_body(text@.subrange(from as int, to as int)) is Some,
        body is Some ==> block_body(text@.subrange(from as int, to as int)) == Some(
            body.unwrap()@,
        ),
{
    let block = vstd::slice::slice_subrange(text, from, to);
    let at = find(block, begin, 0);
    if at >= block.len() {
        return None;
    }
    let start = at + begin.len();
    let stop = find(block, begin, start);
    Some(strip_white_space(block, start, stop))
}

/// The base64 texts of the certificates in a chain.
fn bodies_of_chain(text: &[char]) -> (bodies: Vec<Vec<char>>)
    ensures
        char_views(bodies@) == chain_bodies(text@, 0),
{
    let begin = chars_of("-----BEGIN CERTIFICATE-----");
    let end = chars_of("-----END CERTIFICATE-----");
    let mut bodies: Vec<Vec<char>> = Vec::new();
    let mut from: usize = 0;
    assert(char_views(bodies@) =~= Seq::<Seq<char>>::empty());
    loop
        invariant
            from <= text.len(),
            begin@ == begin_marker(),
            end@ == end_marker(),
            chain_bodies(text@, 0) == char_views(bodies@) + chain_bodies(text@, from as int),
        decreases text.len() - from,
    {
        let stop = find(text, end.as_slice(), from);
        let ghost before = char_views(bodies@);
        match body_of_block(text, from, stop, begin.as_slice()) {
            Some(body) => {
                bodies.push(body);
                assert(char_views(bodies@) =~= before.push(body@));
            },
            None => {},
        }
        if stop >= text.len() {
            assert(chain_bodies(text@, 0) =~= char_views(bodies@));
            return bodies;
        }
        proof {
            reveal_strlit("-----END CERTIFICATE-----");
            let here = match block_body(text@.subrange(from as int, stop as int)) {
                Some(body) => seq![body],
                None => Seq::empty(),
            };
            let next = stop + end_marker().len();
            assert(before + (here + chain_bodies(text@, next)) =~= (before + here) + chain_bodies(
                text@,
                next,
            ));
        }
        from = stop + end.len();
    }
}

/// Parse a PEM-encoded certificate chain into DER bytes.
///
/// The chain is cut at each `-----END CERTIFICATE-----`; in each piece that holds a
/// `-----BEGIN CERTIFICATE-----` the text after it is freed of white space and decoded as
/// base64. Fails with the first decoding error.
pub fn parse_pem_chain(pem: &str) -> (result: Result<Vec<Vec<u8>>, PckError>)
    ensures
        result is Ok <==> parsed_chain(pem@) is Ok,
        result is Ok ==> parsed_chain(pem@) == Ok::<Seq<Seq<u8>>, Seq<char>>(
            byte_views(result.unwrap()@),
        ),
        result is Err ==> parse_failure(result.unwrap_err(), parsed_chain(pem@)),
{
    let text = chars_of(pem);
    let bodies = bodies_of_chain(text.as_slice());
    let ghost all = chain_bodies(pem@, 0);
    let mut certs: Vec<Vec<u8>> = Vec::new();
    let mut i: usize = 0;
    assert(byte_views(certs@) =~= Seq::<Seq<u8>>::empty());
    while i < bodies.len()
        invariant
            i <= bodies.len(),
            all == char_views(bodies@),
            all == chain_bodies(pem@, 0),
            decoded_bodies(all, i as nat) == Ok::<Seq<Seq<u8>>, Seq<char>>(byte_views(certs@)),
        decreases bodies.len() - i,
    {
        match base64_decode(&bodies[i]) {
            Ok(cert) => {
                let ghost before = byte_views(certs@);
                certs.push(cert);
                assert(byte_views(certs@) =~= before.push(cert@));
            },
            Err(reason) => {
                let mut message = String::from_str("Base64 decode error: ");
                message.append(reason.as_str());
                proof {
                    assert(all[i as int] == bodies@[i as int]@);
                    lemma_decoding_error_stays(all, (i + 1) as nat, all.len());
                }
                return Err(PckError::ParseError(message));
            },
        }
        i += 1;
    }
    Ok(certs)
}

/// Whether `error` reports the failure of `parsed` to read a chain.
pub open spec fn parse_failure(error: PckError, parsed: Result<Seq<Seq<u8>>, Seq<char>>) -> bool {
    match error {
        PckError::ParseError(message) => parsed == Err::<Seq<Seq<u8>>, Seq<char>>(message@),
        _ => false,
    }
}

/// Once a text has failed to decode, the failure stays when more texts are asked for.
pub proof fn lemma_decoding_error_stays(bodies: Seq<Seq<char>>, failed: nat, count: nat)
    requires
        failed <= count <= bodies.len(),
        decoded_bodies(bodies, failed) is Err,
    ensures
        decoded_bodies(bodies, count) == decoded_bodies(bodies, failed),
    decreases count,
{
    if failed < count {
        lemma_decoding_error_stays(bodies, failed, (count - 1) as nat);
    }
}

/// What the chain checks read of one X.509 certificate.
#[derive(Debug, Clone)]
pub struct Certificate {
    /// The serial number, as the bytes of a big-endian integer.
    pub serial: Vec<u8>,
    /// Start of the validity window, in seconds since the Unix epoch.
    pub not_before: u64,
    /// End of the validity window, in seconds since the Unix epoch.
    pub not_after: u64,
    /// The bytes that the issuer signed: the DER encoding of the certificate's body.
    pub signed: Vec<u8>,
    /// The issuer's ECDSA signature over `signed`, in ASN.1 DER.
    pub signature: Vec<u8>,
    /// The subject's public key, as a SEC1 point.
    pub public_key: Vec<u8>,
    /// The extensions: the object identifier of each as DER content, and its value.
    pub extensions: Vec<(Vec<u8>, Vec<u8>)>,
}

/// A certificate as a mathematical value.
pub struct CertificateView {
    pub serial: Seq<u8>,
    pub not_before: u64,
    pub not_after: u64,
    pub signed: Seq<u8>,
    pub signature: Seq<u8>,
    pub public_key: Seq<u8>,
    pub extensions: Seq<(Seq<u8>, Seq<u8>)>,
}

/// The extensions of a list as mathematical values.
pub open spec fn extension_views(extensions: Seq<(Vec<u8>, Vec<u8>)>) -> Seq<(Seq<u8>, Seq<u8>)> {
    Seq::new(extensions.len(), |i: int| (extensions[i].0@, extensions[i].1@))
}

impl View for Certificate {
    type V = CertificateView;

    open spec fn view(&self) -> CertificateView {
        CertificateView {
            serial: self.serial@,
            not_before: self.not_before,
            not_after: self.not_after,
            signed: self.signed@,
            signature: self.signature@,
            public_key: self.public_key@,
            extensions: extension_views(self.extensions@),
        }
    }
}

/// What `x509_cert` reads from DER bytes as a certificate: serial number, validity window,
/// the encoding of the signed body, signature, subject public key and extensions; nothing
/// for bytes that it does not read as a certificate.
pub uninterp spec fn x509_certificate(der: Seq<u8>) -> Option<CertificateView>;

/// The serial numbers of the revoked certificates that `x509_cert` reads from DER bytes as a
/// certificate revocation list; nothing for bytes that it does not read as one.
pub uninterp spec fn x509_revoked_serials(der: Seq<u8>) -> Option<Seq<Seq<u8>>>;

/// Trusted: reads a certificate with `x509_cert::Certificate::from_der` and hands out the
/// fields that the chain checks read; the signed body is encoded again with `to_der`. The
/// contract names the outcome after the bytes.
#[verifier::external_body]
fn x509_parse(der: &[u8]) -> (cert: Option<Certificate>)
    ensures
        cert is Some <==> x509_certificate(der@) is Some,
        cert is Some ==> x509_certificate(der@) == Some(cert.unwrap()@),
{
    let cert = x509_cert::Certificate::from_der(der).ok()?;
    let body = &cert.tbs_certificate;
    let extensions = body.extensions.iter().flatten();
    Some(Certificate {
        extensions: extensions
            .map(|e| (e.extn_id.as_bytes().to_vec(), e.extn_value.as_bytes().to_vec()))
            .collect(),
        serial: body.serial_number.as_bytes().to_vec(),
        not_before: body.validity.not_before.to_unix_duration().as_secs(),
        not_after: body.validity.not_after.to_unix_duration().as_secs(),
        signed: body.to_der().ok()?,
        signature: cert.signature.raw_bytes().to_vec(),
        public_key: body.subject_public_key_info.subject_public_key.raw_bytes().to_vec(),
    })
}

/// Trusted: reads a certificate revocation list with
/// `x509_cert::crl::CertificateList::from_der` and hands out the serial numbers of its
/// revoked certificates. The contract names the outcome after the bytes.
#[verifier::external_body]
fn x509_crl_parse(der: &[u8]) -> (serials: Option<Vec<Vec<u8>>>)
    ensures
        serials is Some <==> x509_revoked_serials(der@) is Some,
        serials is Some ==> x509_revoked_serials(der@) == Some(byte_views(serials.unwrap()@)),
{
    let list = x509_cert::crl::CertificateList::from_der(der).ok()?;
    let revoked = list.tbs_cert_list.revoked_certificates.unwrap_or_default();
    Some(revoked.iter().map(|entry| entry.serial_number.as_bytes().to_vec()).collect())
}

/// The certificates of a list as mathematical values.
pub open spec fn certificate_views(certs: Seq<Certificate>) -> Seq<CertificateView> {
    Seq::new(certs.len(), |i: int| certs[i]@)
}

/// The certificates that a list of DER encodings holds, if every one is a certificate.
pub open spec fn certificates_of(ders: Seq<Seq<u8>>) -> Option<Seq<CertificateView>> {
    if forall|i: int| 0 <= i < ders.len() ==> x509_certificate(#[trigger] ders[i]) is Some {
        Some(Seq::new(ders.len(), |i: int| x509_certificate(ders[i]).unwrap()))
    } else {
        None
    }
}

/// The serial numbers that the first `count` revocation lists revoke, if every one of
/// them is a revocation list.
pub open spec fn revoked_serials(crls: Seq<Seq<u8>>, count: nat) -> Option<Seq<Seq<u8>>>
    decreases count,
{
    if count == 0 || count > crls.len() {
        Some(Seq::empty())
    } else {
        match (
            revoked_serials(crls, (count - 1) as nat),
            x509_revoked_serials(crls[count - 1]),
        ) {
            (Some(before), Some(here)) => Some(before + here),
            _ => None,
        }
    }
}

/// The public key of the root CA certificate, the first certificate of the configured PEM
/// text, if the text holds a certificate.
pub open spec fn root_key(root_pem: Seq<char>) -> Option<Seq<u8>> {
    match parsed_chain(root_pem) {
        Ok(ders) => if ders.len() == 0 {
            None
        } else {
            match x509_certificate(ders[0]) {
                Some(root) => Some(root.public_key),
                None => None,
            }
        },
        Err(_) => None,
    }
}

/// The key under which the certificate at position `at` of a chain must verify: that of
/// the next certificate, and that of the root CA for the last one.
pub open spec fn issuer_key(certs: Seq<CertificateView>, root: Seq<u8>, at: int) -> Seq<u8> {
    if at + 1 < certs.len() {
        certs[at + 1].public_key
    } else {
        root
    }
}

/// Whether the certificate at position `at` carries a valid signature of its issuer.
pub open spec fn signed_at(certs: Seq<CertificateView>, root: Seq<u8>, at: int) -> bool {
    p256_der_accepts(issuer_key(certs, root, at), certs[at].signed, certs[at].signature)
}

/// Whether every certificate's signature verifies under the next certificate's key, and
/// that of the last one under the root CA's key.
pub open spec fn chain_signed(certs: Seq<CertificateView>, root: Seq<u8>) -> bool {
    forall|i: int| 0 <= i < certs.len() ==> #[trigger] signed_at(certs, root, i)
}

/// Whether the instant `now`, in seconds since the Unix epoch, lies in the validity window
/// of the certificate.
pub open spec fn in_window(cert: CertificateView, now: int) -> bool {
    cert.not_before <= now <= cert.not_after
}

/// Whether `now` lies in the validity window of every certificate.
pub open spec fn all_in_window(certs: Seq<CertificateView>, now: int) -> bool {
    forall|i: int| 0 <= i < certs.len() ==> in_window(#[trigger] certs[i], now)
}

/// Whether no certificate's serial number is among the revoked ones.
pub open spec fn none_revoked(certs: Seq<CertificateView>, revoked: Seq<Seq<u8>>) -> bool {
    forall|i: int| 0 <= i < certs.len() ==> !revoked.contains((#[trigger] certs[i]).serial)
}

/// The value of the first extension at or after `from` that has the object identifier
/// `oid`, if there is one.
pub open spec fn extension_value(
    extensions: Seq<(Seq<u8>, Seq<u8>)>,
    oid: Seq<u8>,
    from: int,
) -> Option<Seq<u8>>
    decreases extensions.len() - from,
{
    if from < 0 || from >= extensions.len() {
        None
    } else if extensions[from].0 == oid {
        Some(extensions[from].1)
    } else {
        extension_value(extensions, oid, from + 1)
    }
}

/// The TCB that a PCK certificate reports in its SGX extension, if it has the extension and
/// the extension reports one.
pub open spec fn reported_tcb(cert: CertificateView) -> Option<PlatformTcbView> {
    match extension_value(cert.extensions, sgx_oid(), 0) {
        Some(value) => extension_tcb(value),
        None => None,
    }
}

/// Whether the TCB level that the first certificate of the chain, the PCK certificate,
/// reports for its platform is acceptable against the cached TCB info.
pub open spec fn tcb_level_acceptable(certs: Seq<CertificateView>, infos: Seq<TcbInfo>) -> bool {
    certs.len() > 0 && match reported_tcb(certs[0]) {
        Some(tcb) => tcb_acceptable(infos, tcb),
        None => false,
    }
}

/// The public key of the PCK certificate, the first certificate of a chain, if the chain
/// parses and holds certificates.
pub open spec fn pck_key(pem: Seq<char>) -> Option<Seq<u8>> {
    match parsed_chain(pem) {
        Ok(ders) => if ders.len() == 0 {
            None
        } else {
            match x509_certificate(ders[0]) {
                Some(first) => Some(first.public_key),
                None => None,
            }
        },
        Err(_) => None,
    }
}

/// The message for a chain that holds what is no certificate.
pub open spec fn no_certificate() -> Seq<char> {
    "Invalid certificate"@
}

/// The message for cached revocation data that is no revocation list.
pub open spec fn no_revocation_list() -> Seq<char> {
    "Invalid certificate revocation list"@
}

/// What verifying a PCK certificate chain gives, for the chain as PEM text, the configured
/// root CA certificate as PEM text, the cached revocation lists in DER, and the clock's
/// seconds since the Unix epoch. In this order:
/// the chain must parse as PEM and hold at least one certificate, each of them X.509;
/// every certificate's signature must verify under the next one's key, and the last one's
/// under the key of the root CA;
/// the clock must lie in every certificate's validity window;
/// no certificate's serial number may stand in a cached revocation list;
/// the first certificate must report, in its SGX extension, a TCB whose level is up to date
/// by the cached TCB info for its FMSPC.
pub open spec fn chain_outcome(
    pem: Seq<char>,
    root_pem: Seq<char>,
    crls: Seq<Seq<u8>>,
    infos: Seq<TcbInfo>,
    now: int,
) -> Result<(), PckFault> {
    match parsed_chain(pem) {
        Err(message) => Err(PckFault::Parse(message)),
        Ok(ders) => if ders.len() == 0 {
            Err(PckFault::InvalidChain)
        } else {
            match certificates_of(ders) {
                None => Err(PckFault::Parse(no_certificate())),
                Some(certs) => match root_key(root_pem) {
                    None => Err(PckFault::InvalidChain),
                    Some(root) => if !chain_signed(certs, root) {
                        Err(PckFault::InvalidChain)
                    } else if !all_in_window(certs, now) {
                        Err(PckFault::Expired)
                    } else {
                        match revoked_serials(crls, crls.len()) {
                            None => Err(PckFault::Parse(no_revocation_list())),
                            Some(revoked) => if !none_revoked(certs, revoked) {
                                Err(PckFault::Revoked)
                            } else if !tcb_level_acceptable(certs, infos) {
                                Err(PckFault::InvalidChain)
                            } else {
                                Ok(())
                            },
                        }
                    },
                },
            }
        },
    }
}

/// What a result of chain verification says, as a mathematical value.
pub open spec fn outcome_of(result: Result<(), PckError>) -> Result<(), PckFault> {
    match result {
        Ok(_) => Ok(()),
        Err(error) => Err(error.fault()),
    }
}

/// Read every DER encoding as a certificate; nothing if one of them is none.
pub fn read_certificates(ders: &Vec<Vec<u8>>) -> (certs: Option<Vec<Certificate>>)
    ensures
        certs is Some <==> certificates_of(byte_views(ders@)) is Some,
        certs is Some ==> certificates_of(byte_views(ders@)) == Some(
            certificate_views(certs.unwrap()@),
        ),
{
    let ghost all = byte_views(ders@);
    let mut certs: Vec<Certificate> = Vec::new();
    let mut i: usize = 0;
    while i < ders.len()
        invariant
            i <= ders.len(),
            all == byte_views(ders@),
            certs@.len() == i,
            forall|j: int| 0 <= j < i ==> x509_certificate(#[trigger] all[j]) == Some(certs@[j]@),
        decreases ders.len() - i,
    {
        assert(all[i as int] == ders@[i as int]@);
        match x509_parse(ders[i].as_slice()) {
            Some(cert) => {
                certs.push(cert);
            },
            None => {
                return None;
            },
        }
        i += 1;
    }
    assert(certificate_views(certs@) =~= certificates_of(all).unwrap());
    Some(certs)
}

/// The serial numbers that the cached revocation lists revoke; nothing if one of the lists
/// cannot be read.
pub fn read_revoked_serials(crls: &Vec<Vec<u8>>) -> (serials: Option<Vec<Vec<u8>>>)
    ensures
        serials is Some <==> revoked_serials(byte_views(crls@), crls@.len()) is Some,
        serials is Some ==> revoked_serials(byte_views(crls@), crls@.len()) == Some(
            byte_views(serials.unwrap()@),
        ),
{
    let ghost all = byte_views(crls@);
    let mut serials: Vec<Vec<u8>> = Vec::new();
    let mut i: usize = 0;
    assert(byte_views(serials@) =~= Seq::<Seq<u8>>::empty());
    while i < crls.len()
        invariant
            i <= crls.len(),
            all == byte_views(crls@),
            revoked_serials(all, i as nat) == Some(byte_views(serials@)),
        decreases crls.len() - i,
    {
        assert(all[i as int] == crls@[i as int]@);
        match x509_crl_parse(crls[i].as_slice()) {
            Some(mut here) => {
                let ghost before = byte_views(serials@);
                let ghost added = byte_views(here@);
                serials.append(&mut here);
                assert(byte_views(serials@) =~= before + added);
            },
            None => {
                proof {
                    lemma_unreadable_list_stays(all, (i + 1) as nat, all.len());
                }
                return None;
            },
        }
        i += 1;
    }
    Some(serials)
}

/// Once a revocation list could not be read, the serials of more lists cannot be had.
pub proof fn lemma_unreadable_list_stays(crls: Seq<Seq<u8>>, failed: nat, count: nat)
    requires
        failed <= count <= crls.len(),
        revoked_serials(crls, failed) is None,
    ensures
        revoked_serials(crls, count) is None,
    decreases count,
{
    if failed < count {
        lemma_unreadable_list_stays(crls, failed, (count - 1) as nat);
    }
}

/// The public key of the PCK certificate of a chain, if the chain holds one.
pub fn read_pck_key(pem: &str) -> (key: Option<Vec<u8>>)
    ensures
        key is Some <==> pck_key(pem@) is Some,
        key is Some ==> pck_key(pem@) == Some(key.unwrap()@),
{
    read_root_key(pem)
}

/// The public key of the configured root CA certificate, if the PEM text holds one.
pub fn read_root_key(root_pem: &str) -> (key: Option<Vec<u8>>)
    ensures
        key is Some <==> root_key(root_pem@) is Some,
        key is Some ==> root_key(root_pem@) == Some(key.unwrap()@),
{
    let ders = match parse_pem_chain(root_pem) {
        Ok(ders) => ders,
        Err(_) => {
            return None;
        },
    };
    if ders.len() == 0 {
        return None;
    }
    assert(byte_views(ders@)[0] == ders@[0]@);
    match x509_parse(ders[0].as_slice()) {
        Some(root) => Some(root.public_key),
        None => None,
    }
}

/// Whether every certificate's signature verifies under its issuer's key.
pub fn is_chain_signed(certs: &Vec<Certificate>, root: &Vec<u8>) -> (signed: bool)
    ensures
        signed == chain_signed(certificate_views(certs@), root@),
{
    let ghost all = certificate_views(certs@);
    let mut i: usize = 0;
    while i < certs.len()
        invariant
            i <= certs.len(),
            all == certificate_views(certs@),
            forall|j: int| 0 <= j < i ==> #[trigger] signed_at(all, root@, j),
        decreases certs.len() - i,
    {
        assert(all[i as int] == certs@[i as int]@);
        let accepted = if i + 1 < certs.len() {
            assert(all[i + 1] == certs@[i + 1]@);
            p256_verify_der(
                certs[i + 1].public_key.as_slice(),
                certs[i].signed.as_slice(),
                certs[i].signature.as_slice(),
            )
        } else {
            p256_verify_der(
                root.as_slice(),
                certs[i].signed.as_slice(),
                certs[i].signature.as_slice(),
            )
        };
        if !accepted {
            assert(!signed_at(all, root@, i as int));
            return false;
        }
        i += 1;
    }
    true
}

/// Whether the clock lies in every certificate's validity window.
pub fn is_chain_in_window(certs: &Vec<Certificate>, now: i64) -> (valid: bool)
    ensures
        valid == all_in_window(certificate_views(certs@), now as int),
{
    let ghost all = certificate_views(certs@);
    let mut i: usize = 0;
    while i < certs.len()
        invariant
            i <= certs.len(),
            all == certificate_views(certs@),
            forall|j: int| 0 <= j < i ==> in_window(#[trigger] all[j], now as int),
        decreases certs.len() - i,
    {
        assert(all[i as int] == certs@[i as int]@);
        if now < 0 || certs[i].not_before > now as u64 || (now as u64) > certs[i].not_after {
            assert(!in_window(all[i as int], now as int));
            return false;
        }
        i += 1;
    }
    true
}

/// Whether a serial number is among the revoked ones.
pub fn is_revoked(serial: &[u8], revoked: &Vec<Vec<u8>>) -> (listed: bool)
    ensures
        listed == byte_views(revoked@).contains(serial@),
{
    let ghost all = byte_views(revoked@);
    let mut i: usize = 0;
    while i < revoked.len()
        invariant
            i <= revoked.len(),
            all == byte_views(revoked@),
            forall|j: int| 0 <= j < i ==> all[j] != serial@,
        decreases revoked.len() - i,
    {
        assert(all[i as int] == revoked@[i as int]@);
        if same_bytes(revoked[i].as_slice(), serial) {
            return true;
        }
        i += 1;
    }
    false
}

/// Whether no certificate of the chain is revoked.
pub fn is_chain_unrevoked(certs: &Vec<Certificate>, revoked: &Vec<Vec<u8>>) -> (clean: bool)
    ensures
        clean == none_revoked(certificate_views(certs@), byte_views(revoked@)),
{
    let ghost all = certificate_views(certs@);
    let mut i: usize = 0;
    while i < certs.len()
        invariant
            i <= certs.len(),
            all == certificate_views(certs@),
            forall|j: int|
                0 <= j < i ==> !byte_views(revoked@).contains((#[trigger] all[j]).serial),
        decreases certs.len() - i,
    {
        assert(all[i as int] == certs@[i as int]@);
        if is_revoked(certs[i].serial.as_slice(), revoked) {
            return false;
        }
        i += 1;
    }
    true
}

/// Verify the PCK certificate chain against trust anchors, as of the instant `now`.
///
/// The chain must parse as PEM and hold at least one X.509 certificate. Every
/// certificate's signature must verify under the next certificate's key, and the last
/// one's under the key of the configured root CA; otherwise the chain is invalid. The
/// instant must lie in every certificate's validity window; otherwise the chain is
/// expired. No certificate's serial number may stand in a cached revocation list;
/// otherwise the chain is revoked. The first certificate, the PCK certificate, must carry
/// the SGX extension, and the TCB that it reports must reach a level with the status
/// `UpToDate` in the cached TCB info for its FMSPC; otherwise the chain is invalid.
pub fn verify_pck_chain(pck_chain_pem: &str, trust_anchors: &TrustAnchors, now: Timestamp) -> (result:
    Result<(), PckError>)
    ensures
        outcome_of(result) == chain_outcome(
            pck_chain_pem@,
            trust_anchors.root_ca_cert@,
            byte_views(trust_anchors.crls@),
            trust_anchors.tcb_info@,
            now.secs as int,
        ),
{
    let ders = match parse_pem_chain(pck_chain_pem) {
        Ok(ders) => ders,
        Err(error) => {
            return Err(error);
        },
    };
    if ders.len() == 0 {
        return Err(PckError::InvalidChain);
    }
    let certs = match read_certificates(&ders) {
        Some(certs) => certs,
        None => {
            return Err(PckError::ParseError(String::from_str("Invalid certificate")));
        },
    };
    let root = match read_root_key(trust_anchors.root_ca_cert.as_str()) {
        Some(root) => root,
        None => {
            return Err(PckError::InvalidChain);
        },
    };
    if !is_chain_signed(&certs, &root) {
        return Err(PckError::InvalidChain);
    }
    if !is_chain_in_window(&certs, now.secs) {
        return Err(PckError::Expired);
    }
    let revoked = match read_revoked_serials(&trust_anchors.crls) {
        Some(revoked) => revoked,
        None => {
            return Err(
                PckError::ParseError(String::from_str("Invalid certificate revocation list")),
            );
        },
    };
    if !is_chain_unrevoked(&certs, &revoked) {
        return Err(PckError::Revoked);
    }
    assert(certificate_views(certs@)[0] == certs@[0]@);
    let acceptable = match read_reported_tcb(&certs[0]) {
        Some(tcb) => is_tcb_acceptable(&trust_anchors.tcb_info, &tcb),
        None => false,
    };
    if !acceptable {
        return Err(PckError::InvalidChain);
    }
    Ok(())
}

/// The TCB that a PCK certificate reports in its SGX extension, if it reports one.
pub fn read_reported_tcb(cert: &Certificate) -> (tcb: Option<PlatformTcb>)
    ensures
        tcb is Some <==> reported_tcb(cert@) is Some,
        tcb is Some ==> reported_tcb(cert@) == Some(tcb.unwrap()@),
{
    let ghost all = extension_views(cert.extensions@);
    let mut oid: Vec<u8> = Vec::new();
    oid.push(0x2a);
    oid.push(0x86);
    oid.push(0x48);
    oid.push(0x86);
    oid.push(0xf8);
    oid.push(0x4d);
    oid.push(0x01);
    oid.push(0x0d);
    oid.push(0x01);
    assert(oid@ =~= sgx_oid());
    let mut i: usize = 0;
    while i < cert.extensions.len()
        invariant
            i <= cert.extensions@.len(),
            all == extension_views(cert.extensions@),
            oid@ == sgx_oid(),
            extension_value(all, sgx_oid(), 0) == extension_value(all, sgx_oid(), i as int),
        decreases cert.extensions@.len() - i,
    {
        assert(all[i as int] == (cert.extensions@[i as int].0@, cert.extensions@[i as int].1@));
        if same_bytes(cert.extensions[i].0.as_slice(), oid.as_slice()) {
            return platform_tcb(cert.extensions[i].1.as_slice());
        }
        i += 1;
    }
    None
}

} // verus!
