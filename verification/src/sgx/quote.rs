//! SGX Quote v3 parsing and quote signature verification.

use crate::crypto::{p256_accepts, p256_verify, sha256, sha256_digest};
use crate::merkle::hash_eq;
use crate::serialization::str_from_utf8;
use crate::text::{decimal, push_decimal};
use vstd::utf8::{decode_utf8, valid_utf8};
use vstd::prelude::*;
use vstd::string::StringExecFns;

verus! {

/// Length of the quote header that precedes the report body.
pub const QUOTE_HEADER_LEN: usize = 48;

/// Length of the report body.
pub const REPORT_BODY_LEN: usize = 432;

/// Offset of the four-byte signature length, right after the report body.
pub const SIGNATURE_LEN_OFFSET: usize = 480;

/// Offset of the signature and authentication data.
pub const SIGNATURE_OFFSET: usize = 484;

/// The only quote version this parser accepts.
pub const QUOTE_VERSION: u16 = 3;

/// Length of the ECDSA signature at the start of the signature data, and of the attestation
/// public key that follows it.
pub const SCALARS_LEN: usize = 64;

/// Offset, in the signature data, of the two-byte length of the QE authentication data:
/// after signature, attestation key, QE report (384 bytes) and QE report signature.
pub const QE_AUTH_LEN_OFFSET: usize = 576;

/// Offset, in the signature data, of the QE report; the report has 384 bytes and is
/// followed by its signature.
pub const QE_REPORT_OFFSET: usize = 128;

/// Offset, in the signature data, of the signature over the QE report.
pub const QE_REPORT_SIGNATURE_OFFSET: usize = 512;

/// Offset, in the signature data, of the report data of the QE report; its first 32 bytes
/// commit to the attestation key.
pub const QE_REPORT_DATA_OFFSET: usize = 448;

/// The type of certification data that holds a PCK certificate chain in PEM.
pub const CERTIFICATION_PCK_CHAIN: u16 = 5;

/// The first byte of an uncompressed SEC1 point.
pub const SEC1_UNCOMPRESSED: u8 = 4;

/// Mask of the DEBUG bit (bit 1) in the enclave attributes.
pub const ATTRIBUTES_DEBUG: u64 = 0x02;

/// Why a quote is refused.
#[derive(Debug)]
pub enum QuoteError {
    /// The quote is shorter than the field that is read next requires.
    InvalidLength { expected: usize, actual: usize },
    /// The version field does not hold 3.
    UnsupportedVersion(u16),
    /// The ECDSA signature over header and report body does not verify.
    InvalidSignature,
    /// Any other malformation.
    ParseError(String),
}

impl QuoteError {
    /// What the error says, as shown to people.
    pub open spec fn message(self) -> Seq<char> {
        match self {
            QuoteError::InvalidLength { expected, actual } =>
                "Invalid quote length: expected at least "@ + decimal(expected as nat) + ", got "@
                    + decimal(actual as nat),
            QuoteError::UnsupportedVersion(version) => "Unsupported quote version: "@ + decimal(
                version as nat,
            ),
            QuoteError::InvalidSignature => "Invalid signature"@,
            QuoteError::ParseError(detail) => "Parse error: "@ + detail@,
        }
    }

    /// What the error says, as shown to people.
    pub fn to_string(&self) -> (text: String)
        ensures
            text@ == self.message(),
    {
        match self {
            QuoteError::InvalidLength { expected, actual } => {
                let mut text = String::from_str("Invalid quote length: expected at least ");
                push_decimal(&mut text, *expected as u64);
                text.append(", got ");
                push_decimal(&mut text, *actual as u64);
                text
            },
            QuoteError::UnsupportedVersion(version) => {
                let mut text = String::from_str("Unsupported quote version: ");
                push_decimal(&mut text, *version as u64);
                text
            },
            QuoteError::InvalidSignature => String::from_str("Invalid signature"),
            QuoteError::ParseError(detail) => String::from_str("Parse error: ").concat(
                detail.as_str(),
            ),
        }
    }
}

/// SGX Quote v3 structure (ECDSA-p256 attestation).
#[derive(Debug, Clone)]
pub struct SgxQuoteV3 {
    pub version: u16,
    pub attestation_key_type: u16,
    pub qe_svn: u16,
    pub pce_svn: u16,
    pub mr_enclave: [u8; 32],
    pub mr_signer: [u8; 32],
    pub isv_prod_id: u16,
    pub isv_svn: u16,
    pub report_data: [u8; 64],
    pub debug_mode: bool,
    /// The signature and authentication data: the ECDSA signature over header and report
    /// body, the attestation public key, and what certifies the key.
    pub signature: Vec<u8>,
    /// The PCK certificate chain (PEM) that the signature data carries, if it carries one.
    pub certification_data: Option<String>,
    /// The bytes that the quote's signature is taken over: header and report body.
    pub signed_data: Vec<u8>,
}

/// The little-endian `u16` at offset `at`.
pub open spec fn le_u16(bytes: Seq<u8>, at: int) -> int {
    bytes[at] as int + 0x100 * (bytes[at + 1] as int)
}

/// The little-endian `u32` at offset `at`.
pub open spec fn le_u32(bytes: Seq<u8>, at: int) -> int {
    le_u16(bytes, at) + 0x1_0000 * le_u16(bytes, at + 2)
}

/// The little-endian `u64` at offset `at`.
pub open spec fn le_u64(bytes: Seq<u8>, at: int) -> int {
    le_u32(bytes, at) + 0x1_0000_0000 * le_u32(bytes, at + 4)
}

/// The number of bytes a quote must have so that the signature data it announces fits; at most
/// `usize::MAX`, so that the bound can be reported on every machine.
pub open spec fn quote_full_len(bytes: Seq<u8>) -> int
    recommends
        bytes.len() >= SIGNATURE_OFFSET,
{
    let announced = SIGNATURE_OFFSET + le_u32(bytes, SIGNATURE_LEN_OFFSET as int);
    if announced <= usize::MAX {
        announced
    } else {
        usize::MAX as int
    }
}

/// The length that the first failing length check asks for, if one fails.
pub open spec fn quote_missing_len(bytes: Seq<u8>) -> Option<int> {
    if bytes.len() < QUOTE_HEADER_LEN {
        Some(QUOTE_HEADER_LEN as int)
    } else if bytes.len() < SIGNATURE_LEN_OFFSET {
        Some(SIGNATURE_LEN_OFFSET as int)
    } else if bytes.len() < SIGNATURE_OFFSET {
        Some(SIGNATURE_OFFSET as int)
    } else if bytes.len() < SIGNATURE_OFFSET + le_u32(bytes, SIGNATURE_LEN_OFFSET as int) {
        Some(quote_full_len(bytes))
    } else {
        None
    }
}

/// The error with which parsing `bytes` fails, if it fails: the header must be complete, then
/// the version must be 3, then body, signature length and signature data must be complete.
pub open spec fn quote_parse_error(bytes: Seq<u8>) -> Option<QuoteError> {
    if bytes.len() >= QUOTE_HEADER_LEN && le_u16(bytes, 0) != QUOTE_VERSION {
        Some(QuoteError::UnsupportedVersion(le_u16(bytes, 0) as u16))
    } else {
        match quote_missing_len(bytes) {
            Some(expected) => Some(
                QuoteError::InvalidLength { expected: expected as usize, actual: bytes.len() as usize },
            ),
            None => None,
        }
    }
}

/// Where the PCK certificate chain stands in the signature data, if the data carries one:
/// after signature, attestation key, QE report, QE report signature and the QE
/// authentication data stand the type of the certification data (5 for a PCK chain), its
/// length and the data itself.
pub open spec fn certification_range(data: Seq<u8>) -> Option<(int, int)> {
    if data.len() < QE_AUTH_LEN_OFFSET + 2 {
        None
    } else {
        let at = QE_AUTH_LEN_OFFSET + 2 + le_u16(data, QE_AUTH_LEN_OFFSET as int);
        if data.len() < at + 6 {
            None
        } else if le_u16(data, at) != CERTIFICATION_PCK_CHAIN {
            None
        } else if data.len() < at + 6 + le_u32(data, at + 2) {
            None
        } else {
            Some((at + 6, at + 6 + le_u32(data, at + 2)))
        }
    }
}

/// The PCK certificate chain that the signature data carries as text, if it carries one.
pub open spec fn certification_text(data: Seq<u8>) -> Option<Seq<char>> {
    match certification_range(data) {
        Some((from, to)) => if valid_utf8(data.subrange(from, to)) {
            Some(decode_utf8(data.subrange(from, to)))
        } else {
            None
        },
        None => None,
    }
}

/// The text of an optional string.
pub open spec fn text_of(text: Option<String>) -> Option<Seq<char>> {
    match text {
        Some(present) => Some(present@),
        None => None,
    }
}

/// Whether the signature data holds a valid signature over `signed`: its first 64 bytes
/// must be an ECDSA P-256 signature of `signed` under the attestation key that the next 64
/// bytes hold as the two coordinates of a point.
pub open spec fn quote_signature_holds(data: Seq<u8>, signed: Seq<u8>) -> bool {
    data.len() >= 2 * SCALARS_LEN && p256_accepts(
        seq![SEC1_UNCOMPRESSED] + data.subrange(SCALARS_LEN as int, 2 * SCALARS_LEN),
        signed,
        data.subrange(0, SCALARS_LEN as int),
    )
}

/// The QE authentication data that the signature data carries.
pub open spec fn qe_auth_data(data: Seq<u8>) -> Seq<u8> {
    data.subrange(
        QE_AUTH_LEN_OFFSET + 2,
        QE_AUTH_LEN_OFFSET + 2 + le_u16(data, QE_AUTH_LEN_OFFSET as int),
    )
}

/// Whether the signature data certifies its attestation key under the PCK public key
/// `pck_key`, given as a SEC1 point: the QE report must carry a valid ECDSA P-256 signature
/// under the PCK key, and the first 32 bytes of its report data must be the SHA-256 hash
/// of the attestation key followed by the QE authentication data.
pub open spec fn key_certified(data: Seq<u8>, pck_key: Seq<u8>) -> bool {
    &&& data.len() >= QE_AUTH_LEN_OFFSET + 2
    &&& data.len() >= QE_AUTH_LEN_OFFSET + 2 + le_u16(data, QE_AUTH_LEN_OFFSET as int)
    &&& p256_accepts(
        pck_key,
        data.subrange(QE_REPORT_OFFSET as int, QE_REPORT_SIGNATURE_OFFSET as int),
        data.subrange(QE_REPORT_SIGNATURE_OFFSET as int, QE_AUTH_LEN_OFFSET as int),
    )
    &&& sha256_digest(data.subrange(SCALARS_LEN as int, 2 * SCALARS_LEN) + qe_auth_data(data))
        == data.subrange(QE_REPORT_DATA_OFFSET as int, QE_REPORT_DATA_OFFSET + 32)
}

/// Whether `quote` holds exactly the fields that the Quote v3 layout places in `bytes`.
pub open spec fn quote_fields_of(quote: SgxQuoteV3, bytes: Seq<u8>) -> bool {
    let body = QUOTE_HEADER_LEN as int;
    &&& quote.version == le_u16(bytes, 0)
    &&& quote.attestation_key_type == le_u16(bytes, 2)
    &&& quote.qe_svn == le_u16(bytes, 8)
    &&& quote.pce_svn == le_u16(bytes, 10)
    &&& quote.debug_mode == ((le_u64(bytes, body + 112) as u64) & ATTRIBUTES_DEBUG != 0)
    &&& quote.mr_enclave@ == bytes.subrange(body + 176, body + 208)
    &&& quote.mr_signer@ == bytes.subrange(body + 240, body + 272)
    &&& quote.isv_prod_id == le_u16(bytes, body + 368)
    &&& quote.isv_svn == le_u16(bytes, body + 370)
    &&& quote.report_data@ == bytes.subrange(body + 368, body + 432)
    &&& quote.signature@ == bytes.subrange(
        SIGNATURE_OFFSET as int,
        SIGNATURE_OFFSET + le_u32(bytes, SIGNATURE_LEN_OFFSET as int),
    )
    &&& text_of(quote.certification_data) == certification_text(quote.signature@)
    &&& quote.signed_data@ == bytes.subrange(0, SIGNATURE_LEN_OFFSET as int)
}

fn read_le_u16(bytes: &[u8], at: usize) -> (value: u16)
    requires
        at + 2 <= bytes.len(),
    ensures
        value == le_u16(bytes@, at as int),
{
    bytes[at] as u16 + 0x100 * (bytes[at + 1] as u16)
}

fn read_le_u32(bytes: &[u8], at: usize) -> (value: u32)
    requires
        at + 4 <= bytes.len(),
    ensures
        value == le_u32(bytes@, at as int),
{
    read_le_u16(bytes, at) as u32 + 0x1_0000 * (read_le_u16(bytes, at + 2) as u32)
}

fn read_le_u64(bytes: &[u8], at: usize) -> (value: u64)
    requires
        at + 8 <= bytes.len(),
    ensures
        value == le_u64(bytes@, at as int),
{
    read_le_u32(bytes, at) as u64 + 0x1_0000_0000 * (read_le_u32(bytes, at + 4) as u64)
}

fn read_array_32(bytes: &[u8], at: usize) -> (out: [u8; 32])
    requires
        at + 32 <= bytes.len(),
    ensures
        out@ == bytes@.subrange(at as int, at + 32),
{
    let mut out = [0u8; 32];
    let mut i: usize = 0;
    while i < 32
        invariant
            i <= 32,
            at + 32 <= bytes.len(),
            forall|j: int| 0 <= j < i ==> out@[j] == bytes@[at + j],
        decreases 32 - i,
    {
        out[i] = bytes[at + i];
        i += 1;
    }
    assert(out@ =~= bytes@.subrange(at as int, at + 32));
    out
}

fn read_array_64(bytes: &[u8], at: usize) -> (out: [u8; 64])
    requires
        at + 64 <= bytes.len(),
    ensures
        out@ == bytes@.subrange(at as int, at + 64),
{
    let mut out = [0u8; 64];
    let mut i: usize = 0;
    while i < 64
        invariant
            i <= 64,
            at + 64 <= bytes.len(),
            forall|j: int| 0 <= j < i ==> out@[j] == bytes@[at + j],
        decreases 64 - i,
    {
        out[i] = bytes[at + i];
        i += 1;
    }
    assert(out@ =~= bytes@.subrange(at as int, at + 64));
    out
}

fn copy_range(bytes: &[u8], from: usize, to: usize) -> (out: Vec<u8>)
    requires
        from <= to <= bytes.len(),
    ensures
        out@ == bytes@.subrange(from as int, to as int),
{
    let mut out: Vec<u8> = Vec::new();
    let mut i: usize = from;
    while i < to
        invariant
            from <= i <= to <= bytes.len(),
            out@ == bytes@.subrange(from as int, i as int),
        decreases to - i,
    {
        out.push(bytes[i]);
        i += 1;
        assert(out@ =~= bytes@.subrange(from as int, i as int));
    }
    out
}

/// Parse an SGX quote v3 (ECDSA-p256) from its little-endian binary form.
///
/// Layout: a 48-byte header (`version` at 0, `attestation_key_type` at 2, `qe_svn` at 8,
/// `pce_svn` at 10), the 432-byte report body, a four-byte signature length and that many
/// bytes of signature and authentication data. Bytes after those are ignored.
///
/// Succeeds exactly when no check of `quote_parse_error` fails, and then returns the fields
/// as laid out; otherwise returns the error of the first failing check.
pub fn parse_sgx_quote_v3(quote: &[u8]) -> (result: Result<SgxQuoteV3, QuoteError>)
    ensures
        match result {
            Ok(parsed) => quote_parse_error(quote@) is None && quote_fields_of(parsed, quote@),
            Err(error) => quote_parse_error(quote@) == Some(error),
        },
{
    if quote.len() < QUOTE_HEADER_LEN {
        return Err(QuoteError::InvalidLength { expected: QUOTE_HEADER_LEN, actual: quote.len() });
    }
    let version = read_le_u16(quote, 0);
    if version != QUOTE_VERSION {
        return Err(QuoteError::UnsupportedVersion(version));
    }
    let attestation_key_type = read_le_u16(quote, 2);
    let qe_svn = read_le_u16(quote, 8);
    let pce_svn = read_le_u16(quote, 10);

    if quote.len() < SIGNATURE_LEN_OFFSET {
        return Err(
            QuoteError::InvalidLength { expected: SIGNATURE_LEN_OFFSET, actual: quote.len() },
        );
    }
    let body = QUOTE_HEADER_LEN;
    let attributes = read_le_u64(quote, body + 112);
    let debug_mode = (attributes & ATTRIBUTES_DEBUG) != 0;
    let mr_enclave = read_array_32(quote, body + 176);
    let mr_signer = read_array_32(quote, body + 240);
    let isv_prod_id = read_le_u16(quote, body + 368);
    let isv_svn = read_le_u16(quote, body + 370);
    let report_data = read_array_64(quote, body + 368);

    if quote.len() < SIGNATURE_OFFSET {
        return Err(QuoteError::InvalidLength { expected: SIGNATURE_OFFSET, actual: quote.len() });
    }
    let signature_len = read_le_u32(quote, SIGNATURE_LEN_OFFSET) as usize;
    if signature_len > usize::MAX - SIGNATURE_OFFSET {
        return Err(QuoteError::InvalidLength { expected: usize::MAX, actual: quote.len() });
    }
    let end = SIGNATURE_OFFSET + signature_len;
    if quote.len() < end {
        return Err(QuoteError::InvalidLength { expected: end, actual: quote.len() });
    }
    let signature = copy_range(quote, SIGNATURE_OFFSET, end);
    let certification_data = certification_chain(signature.as_slice());
    let signed_data = copy_range(quote, 0, SIGNATURE_LEN_OFFSET);

    Ok(
        SgxQuoteV3 {
            version,
            attestation_key_type,
            qe_svn,
            pce_svn,
            mr_enclave,
            mr_signer,
            isv_prod_id,
            isv_svn,
            report_data,
            debug_mode,
            signature,
            certification_data,
            signed_data,
        },
    )
}

/// The PCK certificate chain that the signature data carries as text, if it carries one.
fn certification_chain(data: &[u8]) -> (chain: Option<String>)
    ensures
        text_of(chain) == certification_text(data@),
{
    if data.len() < QE_AUTH_LEN_OFFSET + 2 {
        return None;
    }
    let at = QE_AUTH_LEN_OFFSET as u64 + 2 + read_le_u16(data, QE_AUTH_LEN_OFFSET) as u64;
    if (data.len() as u64) < at + 6 {
        return None;
    }
    let start = at as usize;
    if read_le_u16(data, start) != CERTIFICATION_PCK_CHAIN {
        return None;
    }
    let size = read_le_u32(data, start + 2) as u64;
    if (data.len() as u64) < at + 6 + size {
        return None;
    }
    let from = start + 6;
    let to = from + size as usize;
    match str_from_utf8(vstd::slice::slice_subrange(data, from, to)) {
        Some(text) => Some(text.to_owned()),
        None => None,
    }
}

/// Verify the ECDSA-p256 signature on an SGX quote.
///
/// The signature data must start with the signature over header and report body and the
/// attestation public key, 64 bytes each, and the signature must verify under the key.
pub fn verify_quote_signature(quote: &SgxQuoteV3) -> (result: Result<(), QuoteError>)
    ensures
        result is Ok <==> quote_signature_holds(quote.signature@, quote.signed_data@),
        result is Err ==> result.unwrap_err() == QuoteError::InvalidSignature,
{
    if quote.signature.len() < 2 * SCALARS_LEN {
        return Err(QuoteError::InvalidSignature);
    }
    let mut key: Vec<u8> = Vec::new();
    key.push(SEC1_UNCOMPRESSED);
    let mut i: usize = SCALARS_LEN;
    while i < 2 * SCALARS_LEN
        invariant
            SCALARS_LEN <= i <= 2 * SCALARS_LEN <= quote.signature@.len(),
            key@ == seq![SEC1_UNCOMPRESSED] + quote.signature@.subrange(SCALARS_LEN as int, i as int),
        decreases 2 * SCALARS_LEN - i,
    {
        key.push(quote.signature[i]);
        i += 1;
        assert(key@ =~= seq![SEC1_UNCOMPRESSED] + quote.signature@.subrange(
            SCALARS_LEN as int,
            i as int,
        ));
    }
    let scalars = vstd::slice::slice_subrange(quote.signature.as_slice(), 0, SCALARS_LEN);
    if p256_verify(key.as_slice(), quote.signed_data.as_slice(), scalars) {
        Ok(())
    } else {
        Err(QuoteError::InvalidSignature)
    }
}

/// Verify that the quote's attestation key is certified by the PCK key `pck_key`, given as
/// a SEC1 point: the QE report in the signature data must be signed by the PCK key and
/// must commit to the attestation key and the QE authentication data.
pub fn verify_key_certification(quote: &SgxQuoteV3, pck_key: &[u8]) -> (result: Result<
    (),
    QuoteError,
>)
    ensures
        result is Ok <==> key_certified(quote.signature@, pck_key@),
        result is Err ==> result.unwrap_err() == QuoteError::InvalidSignature,
{
    let data = quote.signature.as_slice();
    if data.len() < QE_AUTH_LEN_OFFSET + 2 {
        return Err(QuoteError::InvalidSignature);
    }
    let auth_len = read_le_u16(data, QE_AUTH_LEN_OFFSET) as usize;
    if data.len() - (QE_AUTH_LEN_OFFSET + 2) < auth_len {
        return Err(QuoteError::InvalidSignature);
    }
    let report = vstd::slice::slice_subrange(data, QE_REPORT_OFFSET, QE_REPORT_SIGNATURE_OFFSET);
    let signature = vstd::slice::slice_subrange(data, QE_REPORT_SIGNATURE_OFFSET, QE_AUTH_LEN_OFFSET);
    if !p256_verify(pck_key, report, signature) {
        return Err(QuoteError::InvalidSignature);
    }
    let mut committed = copy_range(data, SCALARS_LEN, 2 * SCALARS_LEN);
    let mut auth = copy_range(data, QE_AUTH_LEN_OFFSET + 2, QE_AUTH_LEN_OFFSET + 2 + auth_len);
    let ghost key = committed@;
    let ghost rest = auth@;
    committed.append(&mut auth);
    assert(committed@ =~= key + rest);
    let digest = sha256(committed.as_slice());
    let reported = read_array_32(data, QE_REPORT_DATA_OFFSET);
    if hash_eq(&digest, &reported) {
        Ok(())
    } else {
        Err(QuoteError::InvalidSignature)
    }
}

} // verus!
