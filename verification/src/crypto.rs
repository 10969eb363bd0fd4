//! Cryptographic primitives: 256-bit hashing and Ed25519 signatures.

use crate::types::Hash256;
use ed25519_dalek::{Signer as DalekSigner, Verifier as DalekVerifier};
use sha2::Digest;
use vstd::prelude::*;

verus! {

/// The SHA-256 digest of a byte string.
pub uninterp spec fn sha256_digest(data: Seq<u8>) -> Seq<u8>;

/// The BLAKE3 digest of a byte string, in its default 32-byte form.
pub uninterp spec fn blake3_digest(data: Seq<u8>) -> Seq<u8>;

/// The Ed25519 public key that belongs to a 32-byte secret seed.
pub uninterp spec fn ed25519_public_key(seed: Seq<u8>) -> Seq<u8>;

/// The Ed25519 signature of `message` under the secret seed `seed`.
pub uninterp spec fn ed25519_signature(seed: Seq<u8>, message: Seq<u8>) -> Seq<u8>;

/// Whether Ed25519 verification accepts `signature` for `message` under `public_key`.
pub uninterp spec fn ed25519_accepts(public_key: Seq<u8>, message: Seq<u8>, signature: Seq<u8>) -> bool;

/// Whether ECDSA over NIST P-256 with SHA-256 accepts `signature`, given as the two scalars
/// `r` and `s` of 32 bytes each, for `message` under the public key `public_key`, given as
/// a SEC1 point.
pub uninterp spec fn p256_accepts(public_key: Seq<u8>, message: Seq<u8>, signature: Seq<u8>) -> bool;

/// Whether ECDSA over NIST P-256 with SHA-256 accepts `signature`, given in ASN.1 DER, for
/// `message` under the public key `public_key`, given as a SEC1 point.
pub uninterp spec fn p256_der_accepts(
    public_key: Seq<u8>,
    message: Seq<u8>,
    signature: Seq<u8>,
) -> bool;

/// Compute the SHA-256 hash of `data`: the consensus-critical hash, used wherever a digest
/// enters a signature, a Merkle root or the `prev_root` chain.
///
/// Trusted: calls `sha2::Sha256::digest`. The contract only names the digest after the input
/// bytes, which says that equal inputs hash to equal outputs.
#[verifier::external_body]
pub fn sha256(data: &[u8]) -> (hash: Hash256)
    ensures
        hash@ == sha256_digest(data@),
{
    sha2::Sha256::digest(data).into()
}

/// Compute the BLAKE3 hash of `data`: a faster hash for paths that never enter the chain.
///
/// Trusted: calls `blake3::hash`. The contract only names the digest after the input bytes.
#[verifier::external_body]
pub fn blake3(data: &[u8]) -> (hash: Hash256)
    ensures
        hash@ == blake3_digest(data@),
{
    *blake3::hash(data).as_bytes()
}

/// Trusted: derives the public key with `ed25519_dalek::SigningKey::verifying_key`, from a key
/// rebuilt from its seed. The contract names the result after the seed.
#[verifier::external_body]
fn dalek_public_key(seed: &[u8; 32]) -> (public_key: [u8; 32])
    ensures
        public_key@ == ed25519_public_key(seed@),
{
    ed25519_dalek::SigningKey::from_bytes(seed).verifying_key().to_bytes()
}

/// Trusted: signs with `ed25519_dalek::SigningKey::sign` (the `Signer` trait). Ed25519 signing
/// is deterministic, so the contract names the signature after seed and message; it also
/// claims what the scheme is for: the signature verifies under the seed's public key.
#[verifier::external_body]
fn dalek_sign(seed: &[u8; 32], message: &[u8]) -> (signature: [u8; 64])
    ensures
        signature@ == ed25519_signature(seed@, message@),
        ed25519_accepts(ed25519_public_key(seed@), message@, signature@),
{
    ed25519_dalek::SigningKey::from_bytes(seed).sign(message).to_bytes()
}

/// Trusted: verifies with `ed25519_dalek::VerifyingKey::verify` (the `Verifier` trait). Bytes
/// that `VerifyingKey::from_bytes` refuses as a public key accept nothing.
#[verifier::external_body]
fn dalek_verify(public_key: &[u8; 32], message: &[u8], signature: &[u8; 64]) -> (accepted: bool)
    ensures
        accepted == ed25519_accepts(public_key@, message@, signature@),
{
    match ed25519_dalek::VerifyingKey::from_bytes(public_key) {
        Ok(key) => key.verify(message, &ed25519_dalek::Signature::from_bytes(signature)).is_ok(),
        Err(_) => false,
    }
}

/// Trusted: draws a fresh key with `ed25519_dalek::SigningKey::generate` from the operating
/// system's random source. Nothing is promised of the seed.
#[verifier::external_body]
fn dalek_generate() -> (seed: [u8; 32]) {
    ed25519_dalek::SigningKey::generate(&mut rand::rngs::OsRng).to_bytes()
}

/// Trusted: verifies with `p256::ecdsa::VerifyingKey::verify` (the `Verifier` trait), which
/// hashes the message with SHA-256. A key that `VerifyingKey::from_sec1_bytes` refuses, or
/// a signature that `Signature::from_slice` refuses, accepts nothing.
#[verifier::external_body]
pub(crate) fn p256_verify(public_key: &[u8], message: &[u8], signature: &[u8]) -> (accepted: bool)
    ensures
        accepted == p256_accepts(public_key@, message@, signature@),
{
    match (
        p256::ecdsa::VerifyingKey::from_sec1_bytes(public_key),
        p256::ecdsa::Signature::from_slice(signature),
    ) {
        (Ok(key), Ok(signature)) => key.verify(message, &signature).is_ok(),
        _ => false,
    }
}

/// Trusted: verifies with `p256::ecdsa::VerifyingKey::verify`, for a signature in ASN.1
/// DER. A key that `VerifyingKey::from_sec1_bytes` refuses, or a signature that
/// `Signature::from_der` refuses, accepts nothing.
#[verifier::external_body]
pub(crate) fn p256_verify_der(public_key: &[u8], message: &[u8], signature: &[u8]) -> (accepted:
    bool)
    ensures
        accepted == p256_der_accepts(public_key@, message@, signature@),
{
    match (
        p256::ecdsa::VerifyingKey::from_sec1_bytes(public_key),
        p256::ecdsa::Signature::from_der(signature),
    ) {
        (Ok(key), Ok(signature)) => key.verify(message, &signature).is_ok(),
        _ => false,
    }
}

/// An Ed25519 signature: its 64 bytes.
#[derive(Debug, Clone, Copy, PartialEq, Eq)]
pub struct Signature {
    bytes: [u8; 64],
}

impl View for Signature {
    type V = Seq<u8>;

    closed spec fn view(&self) -> Seq<u8> {
        self.bytes@
    }
}

impl Signature {
    /// The signature that `bytes` hold.
    pub fn from_bytes(bytes: &[u8; 64]) -> (signature: Signature)
        ensures
            signature@ == bytes@,
    {
        Signature { bytes: *bytes }
    }

    /// The 64 bytes of the signature.
    pub fn to_bytes(&self) -> (bytes: [u8; 64])
        ensures
            bytes@ == self@,
    {
        self.bytes
    }
}

/// An Ed25519 public key: its 32 bytes in compressed form.
#[derive(Debug, Clone, Copy, PartialEq, Eq)]
pub struct VerifyingKey {
    bytes: [u8; 32],
}

impl View for VerifyingKey {
    type V = Seq<u8>;

    closed spec fn view(&self) -> Seq<u8> {
        self.bytes@
    }
}

impl VerifyingKey {
    /// The public key that `bytes` hold. Bytes that are no valid key verify nothing.
    pub fn from_bytes(bytes: &[u8; 32]) -> (key: VerifyingKey)
        ensures
            key@ == bytes@,
    {
        VerifyingKey { bytes: *bytes }
    }

    /// The 32 bytes of the key.
    pub fn to_bytes(&self) -> (bytes: [u8; 32])
        ensures
            bytes@ == self@,
    {
        self.bytes
    }

    /// Whether `signature` is a valid signature of `message` under this key.
    pub fn verify(&self, message: &[u8], signature: &Signature) -> (accepted: bool)
        ensures
            accepted == ed25519_accepts(self@, message@, signature@),
    {
        dalek_verify(&self.bytes, message, &signature.bytes)
    }
}

/// An Ed25519 signing key: its 32-byte secret seed.
#[derive(Clone, Copy)]
pub struct SigningKey {
    seed: [u8; 32],
}

impl View for SigningKey {
    type V = Seq<u8>;

    closed spec fn view(&self) -> Seq<u8> {
        self.seed@
    }
}

impl SigningKey {
    /// The signing key with the given secret seed.
    pub fn from_bytes(seed: &[u8; 32]) -> (key: SigningKey)
        ensures
            key@ == seed@,
    {
        SigningKey { seed: *seed }
    }

    /// The secret seed of the key.
    pub fn to_bytes(&self) -> (seed: [u8; 32])
        ensures
            seed@ == self@,
    {
        self.seed
    }

    /// Generate a new signing key from the operating system's random source.
    pub fn generate() -> SigningKey {
        SigningKey { seed: dalek_generate() }
    }

    /// The public key that verifies what this key signs.
    pub fn verifying_key(&self) -> (key: VerifyingKey)
        ensures
            key@ == ed25519_public_key(self@),
    {
        VerifyingKey { bytes: dalek_public_key(&self.seed) }
    }

    /// Sign a message. The signature verifies under `verifying_key()`.
    pub fn sign(&self, message: &[u8]) -> (signature: Signature)
        ensures
            signature@ == ed25519_signature(self@, message@),
            ed25519_accepts(ed25519_public_key(self@), message@, signature@),
    {
        Signature { bytes: dalek_sign(&self.seed, message) }
    }
}

/// A signer that can create Ed25519 signatures.
pub struct Signer {
    signing_key: SigningKey,
}

impl View for Signer {
    type V = Seq<u8>;

    /// The secret seed of the signer's key.
    closed spec fn view(&self) -> Seq<u8> {
        self.signing_key@
    }
}

impl Signer {
    /// Create a new signer from a signing key.
    pub fn new(signing_key: SigningKey) -> (signer: Signer)
        ensures
            signer@ == signing_key@,
    {
        Signer { signing_key }
    }

    /// Generate a new random signing key.
    pub fn generate() -> Signer {
        Signer { signing_key: SigningKey::generate() }
    }

    /// Sign a message. The signature verifies under `verifying_key()`.
    pub fn sign(&self, message: &[u8]) -> (signature: Signature)
        ensures
            signature@ == ed25519_signature(self@, message@),
            ed25519_accepts(ed25519_public_key(self@), message@, signature@),
    {
        self.signing_key.sign(message)
    }

    /// Get the verifying (public) key.
    pub fn verifying_key(&self) -> (key: VerifyingKey)
        ensures
            key@ == ed25519_public_key(self@),
    {
        self.signing_key.verifying_key()
    }

    /// Get the signing key (use with caution).
    pub fn signing_key(&self) -> (key: &SigningKey)
        ensures
            key@ == self@,
    {
        &self.signing_key
    }
}

} // verus!
