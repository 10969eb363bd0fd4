use robot_attestation::crypto::{blake3, sha256, Signature, Signer, SigningKey, VerifyingKey};

fn hex(text: &str) -> Vec<u8> {
    let digits: Vec<u8> = text
        .bytes()
        .map(|c| match c {
            b'0'..=b'9' => c - b'0',
            b'a'..=b'f' => c - b'a' + 10,
            _ => panic!("not a hex digit"),
        })
        .collect();
    digits.chunks(2).map(|pair| pair[0] * 16 + pair[1]).collect()
}

fn array32(text: &str) -> [u8; 32] {
    let bytes = hex(text);
    let mut out = [0u8; 32];
    out.copy_from_slice(&bytes);
    out
}

fn array64(text: &str) -> [u8; 64] {
    let bytes = hex(text);
    let mut out = [0u8; 64];
    out.copy_from_slice(&bytes);
    out
}

const RFC8032_SEED: &str = "9d61b19deffd5a60ba844af492ec2cc44449c5697b326919703bac031cae7f60";
const RFC8032_PUBLIC: &str = "d75a980182b10ab7d54bfed3c964073a0ee172f3daa62325af021a68f707511a";
const RFC8032_SIGNATURE: &str = "e5564300c360ac729086e2cc806e828a84877f1eb8e5d974d873e06522490155\
5fb8821590a33bacc61e39701cf9b46bd25bf5f0595bbe24655141438e7a100b";

#[test]
fn test_sha256() {
    let data = b"test data";
    let hash1 = sha256(data);
    let hash2 = sha256(data);
    assert_eq!(hash1, hash2);
    assert_eq!(hash1.len(), 32);
}

#[test]
fn test_blake3() {
    let data = b"test data";
    let hash1 = blake3(data);
    let hash2 = blake3(data);
    assert_eq!(hash1, hash2);
    assert_eq!(hash1.len(), 32);
}

#[test]
fn test_signer() {
    let signer = Signer::generate();
    let message = b"test message";
    let signature = signer.sign(message);

    assert!(signer.verifying_key().verify(message, &signature));
}

#[test]
fn sha256_of_abc_is_the_published_digest() {
    assert_eq!(
        sha256(b"abc").to_vec(),
        hex("ba7816bf8f01cfea414140de5dae2223b00361a396177a9cb410ff61f20015ad")
    );
}

#[test]
fn sha256_of_nothing_is_the_published_digest() {
    assert_eq!(
        sha256(b"").to_vec(),
        hex("e3b0c44298fc1c149afbf4c8996fb92427ae41e4649b934ca495991b7852b855")
    );
}

#[test]
fn blake3_of_nothing_is_the_published_digest() {
    assert_eq!(
        blake3(b"").to_vec(),
        hex("af1349b9f5f9a1a6a0404dea36dcc9499bcb25c9adc112b7cc9a93cae41f3262")
    );
}

#[test]
fn the_two_hashes_differ() {
    assert_ne!(sha256(b"test data"), blake3(b"test data"));
}

#[test]
fn public_key_of_the_rfc8032_seed() {
    let key = SigningKey::from_bytes(&array32(RFC8032_SEED));
    assert_eq!(key.verifying_key().to_bytes(), array32(RFC8032_PUBLIC));
    assert_eq!(key.to_bytes(), array32(RFC8032_SEED));
}

#[test]
fn signature_of_the_rfc8032_seed_over_the_empty_message() {
    let key = SigningKey::from_bytes(&array32(RFC8032_SEED));
    assert_eq!(key.sign(b"").to_bytes(), array64(RFC8032_SIGNATURE));
}

#[test]
fn the_rfc8032_signature_verifies() {
    let public = VerifyingKey::from_bytes(&array32(RFC8032_PUBLIC));
    let signature = Signature::from_bytes(&array64(RFC8032_SIGNATURE));
    assert!(public.verify(b"", &signature));
    assert!(!public.verify(b"x", &signature));
}

#[test]
fn a_changed_signature_does_not_verify() {
    let public = VerifyingKey::from_bytes(&array32(RFC8032_PUBLIC));
    let mut bytes = array64(RFC8032_SIGNATURE);
    bytes[0] ^= 0x01;
    assert!(!public.verify(b"", &Signature::from_bytes(&bytes)));
}

#[test]
fn bytes_that_are_no_public_key_verify_nothing() {
    let mut bytes = [0u8; 32];
    bytes[0] = 2;
    let public = VerifyingKey::from_bytes(&bytes);
    let signature = Signature::from_bytes(&array64(RFC8032_SIGNATURE));
    assert!(!public.verify(b"", &signature));
}

#[test]
fn signing_is_deterministic() {
    let signer = Signer::new(SigningKey::from_bytes(&[7u8; 32]));
    assert_eq!(signer.sign(b"message"), signer.sign(b"message"));
    assert_ne!(signer.sign(b"message"), signer.sign(b"massage"));
}

#[test]
fn signer_hands_out_its_keys() {
    let key = SigningKey::from_bytes(&[7u8; 32]);
    let signer = Signer::new(key);
    assert_eq!(signer.signing_key().to_bytes(), [7u8; 32]);
    assert_eq!(signer.verifying_key(), key.verifying_key());
}

#[test]
fn generated_keys_differ() {
    let first = SigningKey::generate();
    let second = SigningKey::generate();
    assert_ne!(first.to_bytes(), second.to_bytes());
}

#[test]
fn a_signature_does_not_verify_under_another_key() {
    let signer = Signer::generate();
    let other = Signer::generate();
    let signature = signer.sign(b"test message");
    assert!(!other.verifying_key().verify(b"test message", &signature));
}
