//! Tamper-evident, cryptographically anchored checkpoints for robot attestation.
//!
//! A checkpoint is a signed snapshot that commits to the robot's code and model identity, to
//! a Merkle summary of the mission log since the last checkpoint, to a hardware-backed
//! monotonic counter and to the hash of the previous checkpoint, so that a chain of
//! checkpoints forms a hash-linked, rollback-resistant log.
//!
//! The library holds the canonical encoding of the records, the Merkle log, the checkpoint
//! with its signing and chaining rules, and the attestation adapters with the Intel SGX
//! DCAP adapter. Its executable code carries contracts that Verus proves.

use vstd::prelude::*;

pub mod attestation;
pub mod cbor;
pub mod cbor_laws;
pub mod checkpoint;
pub mod crypto;
pub mod merkle;
pub mod merkle_laws;
pub mod record;
pub mod records;
pub mod serialization;
pub mod sgx;
pub mod text;
pub mod types;

pub use attestation::{AttestationAdapter, AttestationError, AttestationRegistry};
pub use checkpoint::{Checkpoint, CheckpointBuilder};
pub use crypto::{Signature, Signer, SigningKey, VerifyingKey};
pub use merkle::{Entry, MerkleProof, MerkleTree};
pub use types::{
    AttestationResult, DeterminismConfig, Hash256, MissionId, ModelProvenance, RevocationStatus,
    RobotId, SignatureBytes, Timestamp, TrustMode,
};

verus! {

/// The version of this library.
pub const VERSION: &'static str = "0.1.0";

} // verus!
