//! Checkpoint record with anti-rollback protection.
//!
//! A checkpoint is a tamper-evident snapshot of robot state at a given time, signed by the
//! enclave's key over the canonical encoding of all its fields but the signature.

use crate::cbor::{
    encoding, entry_models, keys_sorted, CborModel, CborValue, EncodeError, SerializationError,
};
use crate::crypto::{
    ed25519_accepts, ed25519_public_key, ed25519_signature, sha256, sha256_digest, Signature,
    SigningKey, VerifyingKey,
};
use crate::merkle::hash_eq;
use crate::cbor::{decoding, malformed};
use crate::cbor_laws::law_decoding_accepts_only_encodings;
use crate::record::{
    bytes_model, bytes_value, field_model, field_models, law_fields_determine_record,
    law_record_fields_read_back, lemma_bytes_read_back, lemma_bytes_value_unique,
    lemma_texts_value_unique, lemma_record_sorted, lemma_texts_read_back, name_views, names_ranked,
    optional_bytes, optional_bytes_view, optional_hash, optional_hash_view, optional_text,
    optional_texts, optional_texts_view, optional_unsigned, optional_view, push_field,
    read_bytes, read_fields, read_hash, read_optional_bytes, read_optional_hash,
    read_optional_text, read_optional_texts, read_optional_unsigned, read_text, read_unsigned,
    record_entries, record_fields, record_model, record_value, required_bytes, required_hash,
    required_text, required_unsigned, text_value, text_views, texts_model, texts_value,
    unsigned_value,
};
use crate::serialization::{from_canonical_cbor, to_canonical_cbor};
use crate::types::{
    same_text, text_timestamp, timestamp_text, DeterminismConfig, Hash256, MissionId,
    ModelProvenance, RobotId, SignatureBytes, Timestamp, TrustMode,
};
use vstd::prelude::*;

verus! {

/// Checkpoint version (for schema evolution).
pub const CHECKPOINT_VERSION: u8 = 1;

/// A cryptographically signed checkpoint with anti-rollback protection.
///
/// Rollback is resisted by three fields: the hardware-backed monotonic counter, the hash of
/// the previous checkpoint, and the strictly increasing sequence number.
#[derive(Debug, Clone, PartialEq, Eq)]
pub struct Checkpoint {
    /// Schema version.
    pub version: u8,
    /// Robot identifier.
    pub robot_id: RobotId,
    /// Mission identifier.
    pub mission_id: MissionId,
    /// Strictly increasing sequence number (per robot).
    pub sequence: u64,
    /// Hardware-backed monotonic counter (TEE-stored).
    pub monotonic_counter: u64,
    /// Instant from the robot clock (local, not authoritative).
    pub local_timestamp_utc: Timestamp,
    /// Model provenance (hash + supply chain metadata).
    pub model_provenance: ModelProvenance,
    /// Firmware/OS hash.
    pub firmware_hash: Hash256,
    /// TEE enclave measurement (code hash).
    pub enclave_measurement: Vec<u8>,
    /// Hash of the previous checkpoint's unsigned form (anti-rollback chaining).
    pub prev_root: Hash256,
    /// Merkle root of log entries since the last checkpoint.
    pub entries_root: Hash256,
    /// Deterministic inference configuration.
    pub inference_config: DeterminismConfig,
    /// Trust mode.
    pub trust_mode: TrustMode,
    /// Ed25519 signature over the canonical encoding of all fields above.
    pub signature: SignatureBytes,
}

/// The field names of a model provenance record, in the order of their encodings.
pub open spec fn provenance_names() -> Seq<Seq<char>> {
    seq!["name"@, "model_hash"@, "dataset_hash"@, "container_digest"@, "signature_bundle"@]
}

/// The field values of a model provenance record; an absent optional field has none.
pub open spec fn provenance_values(provenance: ModelProvenance) -> Seq<Option<CborModel>> {
    seq![
        Some(CborModel::Text(provenance.name@)),
        Some(bytes_model(provenance.model_hash@)),
        match provenance.dataset_hash {
            Some(hash) => Some(bytes_model(hash@)),
            None => None,
        },
        match provenance.container_digest {
            Some(digest) => Some(CborModel::Text(digest@)),
            None => None,
        },
        match provenance.signature_bundle {
            Some(bundle) => Some(bytes_model(bundle@)),
            None => None,
        },
    ]
}

/// The record that stands for a model provenance.
pub open spec fn provenance_model(provenance: ModelProvenance) -> CborModel {
    record_model(provenance_names(), provenance_values(provenance))
}

/// The field names of a determinism configuration record, in the order of their encodings.
pub open spec fn config_names() -> Seq<Seq<char>> {
    seq!["flags"@, "rng_seed"@, "batch_size"@]
}

/// The field values of a determinism configuration record.
pub open spec fn config_values(config: DeterminismConfig) -> Seq<Option<CborModel>> {
    seq![
        match config.flags {
            Some(flags) => Some(texts_model(text_views(flags@))),
            None => None,
        },
        match config.rng_seed {
            Some(seed) => Some(CborModel::Unsigned(seed)),
            None => None,
        },
        Some(CborModel::Unsigned(config.batch_size as u64)),
    ]
}

/// The record that stands for a determinism configuration.
pub open spec fn config_model(config: DeterminismConfig) -> CborModel {
    record_model(config_names(), config_values(config))
}

/// The field names of a checkpoint record, in the order of their encodings.
pub open spec fn checkpoint_names() -> Seq<Seq<char>> {
    seq![
        "version"@,
        "robot_id"@,
        "sequence"@,
        "prev_root"@,
        "signature"@,
        "mission_id"@,
        "trust_mode"@,
        "entries_root"@,
        "firmware_hash"@,
        "inference_config"@,
        "model_provenance"@,
        "monotonic_counter"@,
        "enclave_measurement"@,
        "local_timestamp_utc"@,
    ]
}

/// The field names of a checkpoint record without its signature.
pub open spec fn unsigned_names() -> Seq<Seq<char>> {
    seq![
        "version"@,
        "robot_id"@,
        "sequence"@,
        "prev_root"@,
        "mission_id"@,
        "trust_mode"@,
        "entries_root"@,
        "firmware_hash"@,
        "inference_config"@,
        "model_provenance"@,
        "monotonic_counter"@,
        "enclave_measurement"@,
        "local_timestamp_utc"@,
    ]
}

/// The field values of a checkpoint record.
pub open spec fn checkpoint_values(checkpoint: Checkpoint) -> Seq<Option<CborModel>> {
    seq![
        Some(CborModel::Unsigned(checkpoint.version as u64)),
        Some(CborModel::Text(checkpoint.robot_id.0@)),
        Some(CborModel::Unsigned(checkpoint.sequence)),
        Some(bytes_model(checkpoint.prev_root@)),
        Some(bytes_model(checkpoint.signature.0@)),
        Some(CborModel::Text(checkpoint.mission_id.0@)),
        Some(CborModel::Text(checkpoint.trust_mode.token())),
        Some(bytes_model(checkpoint.entries_root@)),
        Some(bytes_model(checkpoint.firmware_hash@)),
        Some(config_model(checkpoint.inference_config)),
        Some(provenance_model(checkpoint.model_provenance)),
        Some(CborModel::Unsigned(checkpoint.monotonic_counter)),
        Some(bytes_model(checkpoint.enclave_measurement@)),
        Some(CborModel::Text(timestamp_text(checkpoint.local_timestamp_utc).unwrap())),
    ]
}

/// The field values of a checkpoint record without its signature.
pub open spec fn unsigned_values(checkpoint: Checkpoint) -> Seq<Option<CborModel>> {
    seq![
        Some(CborModel::Unsigned(checkpoint.version as u64)),
        Some(CborModel::Text(checkpoint.robot_id.0@)),
        Some(CborModel::Unsigned(checkpoint.sequence)),
        Some(bytes_model(checkpoint.prev_root@)),
        Some(CborModel::Text(checkpoint.mission_id.0@)),
        Some(CborModel::Text(checkpoint.trust_mode.token())),
        Some(bytes_model(checkpoint.entries_root@)),
        Some(bytes_model(checkpoint.firmware_hash@)),
        Some(config_model(checkpoint.inference_config)),
        Some(provenance_model(checkpoint.model_provenance)),
        Some(CborModel::Unsigned(checkpoint.monotonic_counter)),
        Some(bytes_model(checkpoint.enclave_measurement@)),
        Some(CborModel::Text(timestamp_text(checkpoint.local_timestamp_utc).unwrap())),
    ]
}

/// Whether the checkpoint can be written: its instant must have a text form.
pub open spec fn encodable(checkpoint: Checkpoint) -> bool {
    timestamp_text(checkpoint.local_timestamp_utc) is Some
}

/// The record that stands for a checkpoint.
pub open spec fn checkpoint_model(checkpoint: Checkpoint) -> CborModel {
    record_model(checkpoint_names(), checkpoint_values(checkpoint))
}

/// The unsigned form of a checkpoint: the record of all its fields but the signature.
pub open spec fn unsigned_model(checkpoint: Checkpoint) -> CborModel {
    record_model(unsigned_names(), unsigned_values(checkpoint))
}

/// The bytes that a checkpoint's signature is taken over: the canonical encoding of its
/// unsigned form.
pub open spec fn signed_message(checkpoint: Checkpoint) -> Seq<u8> {
    encoding(unsigned_model(checkpoint))
}

/// The hash of a checkpoint for chaining: the SHA-256 hash of the encoding of its unsigned
/// form. The next checkpoint carries it as `prev_root`.
pub open spec fn checkpoint_digest(checkpoint: Checkpoint) -> Seq<u8> {
    sha256_digest(signed_message(checkpoint))
}

/// The error of a checkpoint whose instant has no text form.
pub open spec fn no_timestamp_text() -> SerializationError {
    SerializationError::Encode(EncodeError::Timestamp)
}

/// The field names of a model provenance record stand in the order of their encodings.
pub proof fn lemma_provenance_names_ranked()
    ensures
        names_ranked(provenance_names()),
{
    reveal_strlit("name");
    reveal_strlit("model_hash");
    reveal_strlit("dataset_hash");
    reveal_strlit("container_digest");
    reveal_strlit("signature_bundle");
}

/// The field names of a determinism configuration record stand in the order of their
/// encodings.
pub proof fn lemma_config_names_ranked()
    ensures
        names_ranked(config_names()),
{
    reveal_strlit("flags");
    reveal_strlit("rng_seed");
    reveal_strlit("batch_size");
}

/// The field names of a checkpoint record stand in the order of their encodings.
pub proof fn lemma_checkpoint_names_ranked()
    ensures
        names_ranked(checkpoint_names()),
{
    reveal_strlit("version");
    reveal_strlit("robot_id");
    reveal_strlit("sequence");
    reveal_strlit("prev_root");
    reveal_strlit("signature");
    reveal_strlit("mission_id");
    reveal_strlit("trust_mode");
    reveal_strlit("entries_root");
    reveal_strlit("firmware_hash");
    reveal_strlit("inference_config");
    reveal_strlit("model_provenance");
    reveal_strlit("monotonic_counter");
    reveal_strlit("enclave_measurement");
    reveal_strlit("local_timestamp_utc");
}

/// The field names of an unsigned checkpoint record stand in the order of their encodings.
pub proof fn lemma_unsigned_names_ranked()
    ensures
        names_ranked(unsigned_names()),
{
    reveal_strlit("version");
    reveal_strlit("robot_id");
    reveal_strlit("sequence");
    reveal_strlit("prev_root");
    reveal_strlit("mission_id");
    reveal_strlit("trust_mode");
    reveal_strlit("entries_root");
    reveal_strlit("firmware_hash");
    reveal_strlit("inference_config");
    reveal_strlit("model_provenance");
    reveal_strlit("monotonic_counter");
    reveal_strlit("enclave_measurement");
    reveal_strlit("local_timestamp_utc");
}

/// The record value of a byte string holds no map, so no key out of order.
pub proof fn lemma_bytes_sorted(bytes: Seq<u8>)
    ensures
        keys_sorted(bytes_model(bytes)),
{
    let items = bytes_model(bytes)->Array_0;
    assert forall|i: int| 0 <= i < items.len() implies keys_sorted(#[trigger] items[i]) by {
        assert(items[i] == CborModel::Unsigned(bytes[i] as u64));
    }
}

/// The record value of a list of texts holds no map, so no key out of order.
pub proof fn lemma_texts_sorted(texts: Seq<Seq<char>>)
    ensures
        keys_sorted(texts_model(texts)),
{
    let items = texts_model(texts)->Array_0;
    assert forall|i: int| 0 <= i < items.len() implies keys_sorted(#[trigger] items[i]) by {
        assert(items[i] == CborModel::Text(texts[i]));
    }
}

fn bytes_field(bytes: &Option<Vec<u8>>) -> (value: Option<CborValue>)
    ensures
        bytes is Some <==> value is Some,
        bytes is Some ==> value.unwrap()@ == bytes_model(bytes.unwrap()@),
{
    match bytes {
        Some(present) => Some(bytes_value(present.as_slice())),
        None => None,
    }
}

fn hash_field(hash: &Option<Hash256>) -> (value: Option<CborValue>)
    ensures
        hash is Some <==> value is Some,
        hash is Some ==> value.unwrap()@ == bytes_model(hash.unwrap()@),
{
    match hash {
        Some(present) => Some(bytes_value(present.as_slice())),
        None => None,
    }
}

fn text_field(text: &Option<String>) -> (value: Option<CborValue>)
    ensures
        text is Some <==> value is Some,
        text is Some ==> value.unwrap()@ == CborModel::Text(text.unwrap()@),
{
    match text {
        Some(present) => Some(text_value(present.as_str())),
        None => None,
    }
}

fn texts_field(texts: &Option<Vec<String>>) -> (value: Option<CborValue>)
    ensures
        texts is Some <==> value is Some,
        texts is Some ==> value.unwrap()@ == texts_model(text_views(texts.unwrap()@)),
{
    match texts {
        Some(present) => Some(texts_value(present)),
        None => None,
    }
}

fn unsigned_field(n: &Option<u64>) -> (value: Option<CborValue>)
    ensures
        n is Some <==> value is Some,
        n is Some ==> value.unwrap()@ == CborModel::Unsigned(n.unwrap()),
{
    match n {
        Some(present) => Some(unsigned_value(*present)),
        None => None,
    }
}

impl ModelProvenance {
    /// The record that stands for this provenance; absent optional fields are left out.
    pub fn to_value(&self) -> (value: CborValue)
        ensures
            value@ == provenance_model(*self),
            keys_sorted(value@),
    {
        let ghost names = provenance_names();
        let ghost values = provenance_values(*self);
        let mut entries: Vec<(CborValue, CborValue)> = Vec::new();
        assert(entry_models(entries@) =~= record_entries(names, values, 0));
        push_field(&mut entries, "name", Some(text_value(self.name.as_str())));
        assert(entry_models(entries@) == record_entries(names, values, 1));
        push_field(&mut entries, "model_hash", Some(bytes_value(self.model_hash.as_slice())));
        assert(entry_models(entries@) == record_entries(names, values, 2));
        push_field(&mut entries, "dataset_hash", hash_field(&self.dataset_hash));
        assert(entry_models(entries@) == record_entries(names, values, 3));
        push_field(&mut entries, "container_digest", text_field(&self.container_digest));
        assert(entry_models(entries@) == record_entries(names, values, 4));
        push_field(&mut entries, "signature_bundle", bytes_field(&self.signature_bundle));
        assert(entry_models(entries@) == record_entries(names, values, 5));
        proof {
            lemma_provenance_names_ranked();
            lemma_bytes_sorted(self.model_hash@);
            if self.dataset_hash is Some {
                lemma_bytes_sorted(self.dataset_hash.unwrap()@);
            }
            if self.signature_bundle is Some {
                lemma_bytes_sorted(self.signature_bundle.unwrap()@);
            }
            lemma_record_sorted(names, values);
        }
        record_value(entries)
    }
}

impl DeterminismConfig {
    /// The record that stands for this configuration; absent optional fields are left out.
    pub fn to_value(&self) -> (value: CborValue)
        ensures
            value@ == config_model(*self),
            keys_sorted(value@),
    {
        let ghost names = config_names();
        let ghost values = config_values(*self);
        let mut entries: Vec<(CborValue, CborValue)> = Vec::new();
        assert(entry_models(entries@) =~= record_entries(names, values, 0));
        push_field(&mut entries, "flags", texts_field(&self.flags));
        assert(entry_models(entries@) == record_entries(names, values, 1));
        push_field(&mut entries, "rng_seed", unsigned_field(&self.rng_seed));
        assert(entry_models(entries@) == record_entries(names, values, 2));
        push_field(&mut entries, "batch_size", Some(unsigned_value(self.batch_size as u64)));
        assert(entry_models(entries@) == record_entries(names, values, 3));
        proof {
            lemma_config_names_ranked();
            if self.flags is Some {
                lemma_texts_sorted(text_views(self.flags.unwrap()@));
            }
            lemma_record_sorted(names, values);
        }
        record_value(entries)
    }
}

impl Checkpoint {
    /// The record that stands for this checkpoint, signature included.
    pub fn to_value(&self) -> (result: Result<CborValue, SerializationError>)
        ensures
            encodable(*self) ==> result is Ok && result.unwrap()@ == checkpoint_model(*self),
            encodable(*self) ==> keys_sorted(checkpoint_model(*self)),
            !encodable(*self) ==> result == Err::<CborValue, SerializationError>(no_timestamp_text()),
    {
        let stamp = match self.local_timestamp_utc.to_text() {
            Some(text) => text,
            None => {
                return Err(SerializationError::Encode(EncodeError::Timestamp));
            },
        };
        let ghost names = checkpoint_names();
        let ghost values = checkpoint_values(*self);
        let mut entries: Vec<(CborValue, CborValue)> = Vec::new();
        assert(entry_models(entries@) =~= record_entries(names, values, 0));
        push_field(&mut entries, "version", Some(unsigned_value(self.version as u64)));
        assert(entry_models(entries@) == record_entries(names, values, 1));
        push_field(&mut entries, "robot_id", Some(text_value(self.robot_id.0.as_str())));
        assert(entry_models(entries@) == record_entries(names, values, 2));
        push_field(&mut entries, "sequence", Some(unsigned_value(self.sequence)));
        assert(entry_models(entries@) == record_entries(names, values, 3));
        push_field(&mut entries, "prev_root", Some(bytes_value(self.prev_root.as_slice())));
        assert(entry_models(entries@) == record_entries(names, values, 4));
        push_field(&mut entries, "signature", Some(bytes_value(self.signature.0.as_slice())));
        assert(entry_models(entries@) == record_entries(names, values, 5));
        push_field(&mut entries, "mission_id", Some(text_value(self.mission_id.0.as_str())));
        assert(entry_models(entries@) == record_entries(names, values, 6));
        push_field(&mut entries, "trust_mode", Some(text_value(self.trust_mode.as_token())));
        assert(entry_models(entries@) == record_entries(names, values, 7));
        push_field(&mut entries, "entries_root", Some(bytes_value(self.entries_root.as_slice())));
        assert(entry_models(entries@) == record_entries(names, values, 8));
        push_field(&mut entries, "firmware_hash", Some(bytes_value(self.firmware_hash.as_slice())));
        assert(entry_models(entries@) == record_entries(names, values, 9));
        push_field(&mut entries, "inference_config", Some(self.inference_config.to_value()));
        assert(entry_models(entries@) == record_entries(names, values, 10));
        push_field(&mut entries, "model_provenance", Some(self.model_provenance.to_value()));
        assert(entry_models(entries@) == record_entries(names, values, 11));
        push_field(&mut entries, "monotonic_counter", Some(unsigned_value(self.monotonic_counter)));
        assert(entry_models(entries@) == record_entries(names, values, 12));
        push_field(&mut entries, "enclave_measurement", Some(bytes_value(self.enclave_measurement.as_slice())));
        assert(entry_models(entries@) == record_entries(names, values, 13));
        push_field(&mut entries, "local_timestamp_utc", Some(CborValue::Text(stamp)));
        assert(entry_models(entries@) == record_entries(names, values, 14));
        proof {
            lemma_checkpoint_names_ranked();
            lemma_bytes_sorted(self.prev_root@);
            lemma_bytes_sorted(self.signature.0@);
            lemma_bytes_sorted(self.entries_root@);
            lemma_bytes_sorted(self.firmware_hash@);
            lemma_bytes_sorted(self.enclave_measurement@);
            lemma_record_sorted(names, values);
        }
        Ok(record_value(entries))
    }

    /// The unsigned form of this checkpoint: the record of all fields but the signature.
    pub fn unsigned_value(&self) -> (result: Result<CborValue, SerializationError>)
        ensures
            encodable(*self) ==> result is Ok && result.unwrap()@ == unsigned_model(*self),
            encodable(*self) ==> keys_sorted(unsigned_model(*self)),
            !encodable(*self) ==> result == Err::<CborValue, SerializationError>(no_timestamp_text()),
    {
        let stamp = match self.local_timestamp_utc.to_text() {
            Some(text) => text,
            None => {
                return Err(SerializationError::Encode(EncodeError::Timestamp));
            },
        };
        let ghost names = unsigned_names();
        let ghost values = unsigned_values(*self);
        let mut entries: Vec<(CborValue, CborValue)> = Vec::new();
        assert(entry_models(entries@) =~= record_entries(names, values, 0));
        push_field(&mut entries, "version", Some(unsigned_value(self.version as u64)));
        assert(entry_models(entries@) == record_entries(names, values, 1));
        push_field(&mut entries, "robot_id", Some(text_value(self.robot_id.0.as_str())));
        assert(entry_models(entries@) == record_entries(names, values, 2));
        push_field(&mut entries, "sequence", Some(unsigned_value(self.sequence)));
        assert(entry_models(entries@) == record_entries(names, values, 3));
        push_field(&mut entries, "prev_root", Some(bytes_value(self.prev_root.as_slice())));
        assert(entry_models(entries@) == record_entries(names, values, 4));
        push_field(&mut entries, "mission_id", Some(text_value(self.mission_id.0.as_str())));
        assert(entry_models(entries@) == record_entries(names, values, 5));
        push_field(&mut entries, "trust_mode", Some(text_value(self.trust_mode.as_token())));
        assert(entry_models(entries@) == record_entries(names, values, 6));
        push_field(&mut entries, "entries_root", Some(bytes_value(self.entries_root.as_slice())));
        assert(entry_models(entries@) == record_entries(names, values, 7));
        push_field(&mut entries, "firmware_hash", Some(bytes_value(self.firmware_hash.as_slice())));
        assert(entry_models(entries@) == record_entries(names, values, 8));
        push_field(&mut entries, "inference_config", Some(self.inference_config.to_value()));
        assert(entry_models(entries@) == record_entries(names, values, 9));
        push_field(&mut entries, "model_provenance", Some(self.model_provenance.to_value()));
        assert(entry_models(entries@) == record_entries(names, values, 10));
        push_field(&mut entries, "monotonic_counter", Some(unsigned_value(self.monotonic_counter)));
        assert(entry_models(entries@) == record_entries(names, values, 11));
        push_field(&mut entries, "enclave_measurement", Some(bytes_value(self.enclave_measurement.as_slice())));
        assert(entry_models(entries@) == record_entries(names, values, 12));
        push_field(&mut entries, "local_timestamp_utc", Some(CborValue::Text(stamp)));
        assert(entry_models(entries@) == record_entries(names, values, 13));
        proof {
            lemma_unsigned_names_ranked();
            lemma_bytes_sorted(self.prev_root@);
            lemma_bytes_sorted(self.signature.0@);
            lemma_bytes_sorted(self.entries_root@);
            lemma_bytes_sorted(self.firmware_hash@);
            lemma_bytes_sorted(self.enclave_measurement@);
            lemma_record_sorted(names, values);
        }
        Ok(record_value(entries))
    }

    /// The bytes that the signature is taken over: the canonical encoding of the unsigned
    /// form.
    pub fn unsigned_bytes(&self) -> (result: Result<Vec<u8>, SerializationError>)
        ensures
            encodable(*self) ==> result is Ok && result.unwrap()@ == signed_message(*self),
            !encodable(*self) ==> result == Err::<Vec<u8>, SerializationError>(no_timestamp_text()),
    {
        match self.unsigned_value() {
            Err(error) => Err(error),
            Ok(value) => to_canonical_cbor(&value),
        }
    }

    /// Compute the canonical hash of this checkpoint (for `prev_root` chaining).
    ///
    /// The hash is the SHA-256 hash of the encoding of the unsigned checkpoint: all fields
    /// except the signature.
    pub fn compute_hash(&self) -> (result: Result<Hash256, SerializationError>)
        ensures
            encodable(*self) ==> result is Ok && result.unwrap()@ == checkpoint_digest(*self),
            !encodable(*self) ==> result == Err::<Hash256, SerializationError>(no_timestamp_text()),
    {
        match self.unsigned_bytes() {
            Err(error) => Err(error),
            Ok(bytes) => Ok(sha256(bytes.as_slice())),
        }
    }

    /// Verify the signature on this checkpoint.
    ///
    /// Recomputes the signed bytes from the checkpoint's own unsigned form and checks the
    /// Ed25519 signature over them.
    pub fn verify_signature(&self, public_key: &VerifyingKey) -> (result: Result<
        (),
        SignatureError,
    >)
        ensures
            result == signature_check(*self, public_key@),
    {
        let message = match self.unsigned_bytes() {
            Ok(bytes) => bytes,
            Err(_) => {
                return Err(SignatureError::SerializationFailed);
            },
        };
        let signature = Signature::from_bytes(self.signature.as_ref());
        if public_key.verify(message.as_slice(), &signature) {
            Ok(())
        } else {
            Err(SignatureError::InvalidSignature)
        }
    }

    /// Serialize to canonical bytes: the encoding of the checkpoint record. The bytes read
    /// back as this checkpoint.
    pub fn to_bytes(&self) -> (result: Result<Vec<u8>, SerializationError>)
        ensures
            encodable(*self) ==> result is Ok && result.unwrap()@ == encoding(
                checkpoint_model(*self),
            ),
            encodable(*self) ==> checkpoint_read(result.unwrap()@) == Some(self@),
            !encodable(*self) ==> result == Err::<Vec<u8>, SerializationError>(no_timestamp_text()),
    {
        proof {
            if encodable(*self) {
                law_checkpoint_read_back(*self);
            }
        }
        match self.to_value() {
            Err(error) => Err(error),
            Ok(value) => to_canonical_cbor(&value),
        }
    }

    /// Read a checkpoint from the record that stands for it.
    pub fn from_value(value: &CborValue) -> (result: Result<Checkpoint, SerializationError>)
        ensures
            result is Ok <==> checkpoint_reading(value@) is Some,
            result is Ok ==> checkpoint_reading(value@) == Some(result.unwrap()@),
            result is Err ==> result.unwrap_err() == malformed(),
    {
        let names: [&'static str; 14] = [
            "version",
            "robot_id",
            "sequence",
            "prev_root",
            "signature",
            "mission_id",
            "trust_mode",
            "entries_root",
            "firmware_hash",
            "inference_config",
            "model_provenance",
            "monotonic_counter",
            "enclave_measurement",
            "local_timestamp_utc",
        ];
        assert(name_views(names@) =~= checkpoint_names());
        let fields = match read_fields(value, names.as_slice()) {
            Some(fields) => fields,
            None => {
                return Err(bad_record());
            },
        };
        let ghost read = field_models(fields@);
        assert(fields@.len() == 14);
        assert forall|i: int| 0 <= i < 14 implies read[i] == field_model(fields@[i]) by {}
        let version = match read_unsigned(fields[0]) {
            Some(n) => n,
            None => {
                return Err(bad_record());
            },
        };
        if version > 255 {
            return Err(bad_record());
        }
        let robot_id = match read_text(fields[1]) {
            Some(text) => text,
            None => {
                return Err(bad_record());
            },
        };
        let sequence = match read_unsigned(fields[2]) {
            Some(n) => n,
            None => {
                return Err(bad_record());
            },
        };
        let prev_root = match read_hash(fields[3]) {
            Some(hash) => hash,
            None => {
                return Err(bad_record());
            },
        };
        let signature = match read_bytes(fields[4]) {
            Some(bytes) => match signature_of(bytes) {
                Some(signature) => signature,
                None => {
                    return Err(bad_record());
                },
            },
            None => {
                return Err(bad_record());
            },
        };
        let mission_id = match read_text(fields[5]) {
            Some(text) => text,
            None => {
                return Err(bad_record());
            },
        };
        let trust_mode = match read_text(fields[6]) {
            Some(text) => match mode_of_token(text.as_str()) {
                Some(mode) => mode,
                None => {
                    return Err(bad_record());
                },
            },
            None => {
                return Err(bad_record());
            },
        };
        let entries_root = match read_hash(fields[7]) {
            Some(hash) => hash,
            None => {
                return Err(bad_record());
            },
        };
        let firmware_hash = match read_hash(fields[8]) {
            Some(hash) => hash,
            None => {
                return Err(bad_record());
            },
        };
        let inference_config = match fields[9] {
            Some(nested) => match DeterminismConfig::from_value(nested) {
                Some(config) => config,
                None => {
                    return Err(bad_record());
                },
            },
            None => {
                return Err(bad_record());
            },
        };
        let model_provenance = match fields[10] {
            Some(nested) => match ModelProvenance::from_value(nested) {
                Some(provenance) => provenance,
                None => {
                    return Err(bad_record());
                },
            },
            None => {
                return Err(bad_record());
            },
        };
        let monotonic_counter = match read_unsigned(fields[11]) {
            Some(n) => n,
            None => {
                return Err(bad_record());
            },
        };
        let enclave_measurement = match read_bytes(fields[12]) {
            Some(bytes) => bytes,
            None => {
                return Err(bad_record());
            },
        };
        let local_timestamp_utc = match read_text(fields[13]) {
            Some(text) => match Timestamp::from_text(text.as_str()) {
                Some(at) => at,
                None => {
                    return Err(bad_record());
                },
            },
            None => {
                return Err(bad_record());
            },
        };
        Ok(
            Checkpoint {
                version: version as u8,
                robot_id: RobotId(robot_id),
                mission_id: MissionId(mission_id),
                sequence,
                monotonic_counter,
                local_timestamp_utc,
                model_provenance,
                firmware_hash,
                enclave_measurement,
                prev_root,
                entries_root,
                inference_config,
                trust_mode,
                signature: SignatureBytes(signature),
            },
        )
    }

    /// Deserialize from canonical bytes.
    ///
    /// Succeeds exactly on the canonical encoding of a checkpoint record, and returns the
    /// checkpoint. Bytes that are no value in canonical form fail with the fault that
    /// reading them meets; a value that is no checkpoint record is malformed.
    pub fn from_bytes(bytes: &[u8]) -> (result: Result<Checkpoint, SerializationError>)
        ensures
            result is Ok <==> checkpoint_read(bytes@) is Some,
            result is Ok ==> checkpoint_read(bytes@) == Some(result.unwrap()@),
            result is Ok ==> bytes@ == encoding(checkpoint_model(result.unwrap())),
            result is Err ==> result.unwrap_err() == read_fault(bytes@),
    {
        match from_canonical_cbor(bytes) {
            Err(error) => Err(error),
            Ok(value) => {
                let result = Checkpoint::from_value(&value);
                proof {
                    if result is Ok {
                        law_decoding_accepts_only_encodings(bytes@);
                        law_checkpoint_reading_is_exact(value@, result.unwrap());
                    }
                }
                result
            },
        }
    }
}

/// The error for a value that is not the record it should be.
fn bad_record() -> (error: SerializationError)
    ensures
        error == malformed(),
{
    SerializationError::Decode(crate::cbor::DecodeError::Malformed)
}

fn signature_of(bytes: Vec<u8>) -> (signature: Option<[u8; 64]>)
    ensures
        signature is Some <==> bytes@.len() == 64,
        signature is Some ==> signature.unwrap()@ == bytes@,
{
    if bytes.len() != 64 {
        return None;
    }
    let mut signature = [0u8; 64];
    let mut i: usize = 0;
    while i < 64
        invariant
            i <= 64,
            bytes@.len() == 64,
            forall|j: int| 0 <= j < i ==> signature@[j] == bytes@[j],
        decreases 64 - i,
    {
        signature[i] = bytes[i];
        i += 1;
    }
    assert(signature@ =~= bytes@);
    Some(signature)
}

/// The trust mode that a token stands for, if it stands for one.
pub open spec fn token_mode(token: Seq<char>) -> Option<TrustMode> {
    if token == TrustMode::Trusted.token() {
        Some(TrustMode::Trusted)
    } else if token == TrustMode::SoftAttestation.token() {
        Some(TrustMode::SoftAttestation)
    } else if token == TrustMode::Untrusted.token() {
        Some(TrustMode::Untrusted)
    } else {
        None
    }
}

/// The trust mode that a token stands for, if it stands for one.
pub fn mode_of_token(token: &str) -> (mode: Option<TrustMode>)
    ensures
        mode == token_mode(token@),
{
    if same_text(token, "trusted") {
        Some(TrustMode::Trusted)
    } else if same_text(token, "soft_attestation") {
        Some(TrustMode::SoftAttestation)
    } else if same_text(token, "untrusted") {
        Some(TrustMode::Untrusted)
    } else {
        None
    }
}

/// A model provenance as a mathematical value.
pub struct ProvenanceView {
    pub name: Seq<char>,
    pub model_hash: Seq<u8>,
    pub dataset_hash: Option<Seq<u8>>,
    pub container_digest: Option<Seq<char>>,
    pub signature_bundle: Option<Seq<u8>>,
}

/// A determinism configuration as a mathematical value.
pub struct ConfigView {
    pub rng_seed: Option<u64>,
    pub batch_size: u32,
    pub flags: Option<Seq<Seq<char>>>,
}

/// A checkpoint as a mathematical value.
pub struct CheckpointView {
    pub version: u8,
    pub robot_id: Seq<char>,
    pub mission_id: Seq<char>,
    pub sequence: u64,
    pub monotonic_counter: u64,
    pub local_timestamp_utc: Timestamp,
    pub model_provenance: ProvenanceView,
    pub firmware_hash: Seq<u8>,
    pub enclave_measurement: Seq<u8>,
    pub prev_root: Seq<u8>,
    pub entries_root: Seq<u8>,
    pub inference_config: ConfigView,
    pub trust_mode: TrustMode,
    pub signature: Seq<u8>,
}

impl View for ModelProvenance {
    type V = ProvenanceView;

    open spec fn view(&self) -> ProvenanceView {
        ProvenanceView {
            name: self.name@,
            model_hash: self.model_hash@,
            dataset_hash: optional_hash_view(self.dataset_hash),
            container_digest: optional_view(self.container_digest),
            signature_bundle: optional_bytes_view(self.signature_bundle),
        }
    }
}

impl View for DeterminismConfig {
    type V = ConfigView;

    open spec fn view(&self) -> ConfigView {
        ConfigView {
            rng_seed: self.rng_seed,
            batch_size: self.batch_size,
            flags: optional_texts_view(self.flags),
        }
    }
}

impl View for Checkpoint {
    type V = CheckpointView;

    open spec fn view(&self) -> CheckpointView {
        CheckpointView {
            version: self.version,
            robot_id: self.robot_id.0@,
            mission_id: self.mission_id.0@,
            sequence: self.sequence,
            monotonic_counter: self.monotonic_counter,
            local_timestamp_utc: self.local_timestamp_utc,
            model_provenance: self.model_provenance@,
            firmware_hash: self.firmware_hash@,
            enclave_measurement: self.enclave_measurement@,
            prev_root: self.prev_root@,
            entries_root: self.entries_root@,
            inference_config: self.inference_config@,
            trust_mode: self.trust_mode,
            signature: self.signature.0@,
        }
    }
}

/// The model provenance that a record value stands for, if it stands for one.
pub open spec fn provenance_reading(value: CborModel) -> Option<ProvenanceView> {
    match record_fields(value, provenance_names()) {
        None => None,
        Some(fields) => {
            let name = required_text(fields[0]);
            let model_hash = required_hash(fields[1]);
            let dataset_hash = optional_hash(fields[2]);
            let container_digest = optional_text(fields[3]);
            let signature_bundle = optional_bytes(fields[4]);
            if name is Some && model_hash is Some && dataset_hash is Some && container_digest
                is Some && signature_bundle is Some {
                Some(
                    ProvenanceView {
                        name: name.unwrap(),
                        model_hash: model_hash.unwrap(),
                        dataset_hash: dataset_hash.unwrap(),
                        container_digest: container_digest.unwrap(),
                        signature_bundle: signature_bundle.unwrap(),
                    },
                )
            } else {
                None
            }
        },
    }
}

/// The determinism configuration that a record value stands for, if it stands for one.
pub open spec fn config_reading(value: CborModel) -> Option<ConfigView> {
    match record_fields(value, config_names()) {
        None => None,
        Some(fields) => {
            let flags = optional_texts(fields[0]);
            let rng_seed = optional_unsigned(fields[1]);
            let batch_size = required_unsigned(fields[2]);
            if flags is Some && rng_seed is Some && batch_size is Some && batch_size.unwrap()
                <= u32::MAX {
                Some(
                    ConfigView {
                        rng_seed: rng_seed.unwrap(),
                        batch_size: batch_size.unwrap() as u32,
                        flags: flags.unwrap(),
                    },
                )
            } else {
                None
            }
        },
    }
}

/// The nested record of a field that must be present, read by `reading`.
pub open spec fn required_config(field: Option<CborModel>) -> Option<ConfigView> {
    match field {
        Some(value) => config_reading(value),
        None => None,
    }
}

/// The nested provenance record of a field that must be present.
pub open spec fn required_provenance(field: Option<CborModel>) -> Option<ProvenanceView> {
    match field {
        Some(value) => provenance_reading(value),
        None => None,
    }
}

/// The trust mode of a field that must be present.
pub open spec fn required_mode(field: Option<CborModel>) -> Option<TrustMode> {
    match required_text(field) {
        Some(token) => token_mode(token),
        None => None,
    }
}

/// The instant of a field that must be present.
pub open spec fn required_timestamp(field: Option<CborModel>) -> Option<Timestamp> {
    match required_text(field) {
        Some(text) => text_timestamp(text),
        None => None,
    }
}

/// The signature of a field that must be present: 64 bytes.
pub open spec fn required_signature(field: Option<CborModel>) -> Option<Seq<u8>> {
    match required_bytes(field) {
        Some(bytes) => if bytes.len() == 64 {
            Some(bytes)
        } else {
            None
        },
        None => None,
    }
}

/// The version of a field that must be present: an integer below 256.
pub open spec fn required_version(field: Option<CborModel>) -> Option<u8> {
    match required_unsigned(field) {
        Some(n) => if n <= 255 {
            Some(n as u8)
        } else {
            None
        },
        None => None,
    }
}

/// The checkpoint that a record value stands for, if it stands for one: every field must be
/// present and of its type, and no other field may be there.
pub open spec fn checkpoint_reading(value: CborModel) -> Option<CheckpointView> {
    match record_fields(value, checkpoint_names()) {
        None => None,
        Some(fields) => {
            let version = required_version(fields[0]);
            let robot_id = required_text(fields[1]);
            let sequence = required_unsigned(fields[2]);
            let prev_root = required_hash(fields[3]);
            let signature = required_signature(fields[4]);
            let mission_id = required_text(fields[5]);
            let trust_mode = required_mode(fields[6]);
            let entries_root = required_hash(fields[7]);
            let firmware_hash = required_hash(fields[8]);
            let inference_config = required_config(fields[9]);
            let model_provenance = required_provenance(fields[10]);
            let monotonic_counter = required_unsigned(fields[11]);
            let enclave_measurement = required_bytes(fields[12]);
            let local_timestamp_utc = required_timestamp(fields[13]);
            if version is Some && robot_id is Some && sequence is Some && prev_root is Some
                && signature is Some && mission_id is Some && trust_mode is Some && entries_root
                is Some && firmware_hash is Some && inference_config is Some && model_provenance
                is Some && monotonic_counter is Some && enclave_measurement is Some
                && local_timestamp_utc is Some {
                Some(
                    CheckpointView {
                        version: version.unwrap(),
                        robot_id: robot_id.unwrap(),
                        mission_id: mission_id.unwrap(),
                        sequence: sequence.unwrap(),
                        monotonic_counter: monotonic_counter.unwrap(),
                        local_timestamp_utc: local_timestamp_utc.unwrap(),
                        model_provenance: model_provenance.unwrap(),
                        firmware_hash: firmware_hash.unwrap(),
                        enclave_measurement: enclave_measurement.unwrap(),
                        prev_root: prev_root.unwrap(),
                        entries_root: entries_root.unwrap(),
                        inference_config: inference_config.unwrap(),
                        trust_mode: trust_mode.unwrap(),
                        signature: signature.unwrap(),
                    },
                )
            } else {
                None
            }
        },
    }
}

/// The checkpoint that bytes stand for, if they are the canonical encoding of one.
pub open spec fn checkpoint_read(bytes: Seq<u8>) -> Option<CheckpointView> {
    match decoding(bytes) {
        Ok(value) => checkpoint_reading(value),
        Err(_) => None,
    }
}

/// The error with which reading a checkpoint from bytes fails, if it fails.
pub open spec fn read_fault(bytes: Seq<u8>) -> SerializationError {
    match decoding(bytes) {
        Ok(_) => malformed(),
        Err(error) => error,
    }
}

impl ModelProvenance {
    /// Read a model provenance from the record that stands for it.
    pub fn from_value(value: &CborValue) -> (provenance: Option<ModelProvenance>)
        ensures
            provenance is Some <==> provenance_reading(value@) is Some,
            provenance is Some ==> provenance_reading(value@) == Some(provenance.unwrap()@),
    {
        let names: [&'static str; 5] = [
            "name",
            "model_hash",
            "dataset_hash",
            "container_digest",
            "signature_bundle",
        ];
        assert(name_views(names@) =~= provenance_names());
        let fields = match read_fields(value, names.as_slice()) {
            Some(fields) => fields,
            None => {
                return None;
            },
        };
        let ghost read = field_models(fields@);
        assert(fields@.len() == 5);
        assert forall|i: int| 0 <= i < 5 implies read[i] == field_model(fields@[i]) by {}
        let name = match read_text(fields[0]) {
            Some(text) => text,
            None => {
                return None;
            },
        };
        let model_hash = match read_hash(fields[1]) {
            Some(hash) => hash,
            None => {
                return None;
            },
        };
        let dataset_hash = match read_optional_hash(fields[2]) {
            Some(hash) => hash,
            None => {
                return None;
            },
        };
        let container_digest = match read_optional_text(fields[3]) {
            Some(text) => text,
            None => {
                return None;
            },
        };
        let signature_bundle = match read_optional_bytes(fields[4]) {
            Some(bytes) => bytes,
            None => {
                return None;
            },
        };
        Some(ModelProvenance { name, model_hash, dataset_hash, container_digest, signature_bundle })
    }
}

impl DeterminismConfig {
    /// Read a determinism configuration from the record that stands for it.
    pub fn from_value(value: &CborValue) -> (config: Option<DeterminismConfig>)
        ensures
            config is Some <==> config_reading(value@) is Some,
            config is Some ==> config_reading(value@) == Some(config.unwrap()@),
    {
        let names: [&'static str; 3] = ["flags", "rng_seed", "batch_size"];
        assert(name_views(names@) =~= config_names());
        let fields = match read_fields(value, names.as_slice()) {
            Some(fields) => fields,
            None => {
                return None;
            },
        };
        let ghost read = field_models(fields@);
        assert(fields@.len() == 3);
        assert forall|i: int| 0 <= i < 3 implies read[i] == field_model(fields@[i]) by {}
        let flags = match read_optional_texts(fields[0]) {
            Some(texts) => texts,
            None => {
                return None;
            },
        };
        let rng_seed = match read_optional_unsigned(fields[1]) {
            Some(seed) => seed,
            None => {
                return None;
            },
        };
        let batch_size = match read_unsigned(fields[2]) {
            Some(n) => n,
            None => {
                return None;
            },
        };
        if batch_size > 0xffff_ffff {
            return None;
        }
        Some(DeterminismConfig { rng_seed, batch_size: batch_size as u32, flags })
    }
}

/// A model provenance is read back from its record.
pub proof fn law_provenance_read_back(provenance: ModelProvenance)
    ensures
        provenance_reading(provenance_model(provenance)) == Some(provenance@),
{
    lemma_provenance_names_ranked();
    law_record_fields_read_back(provenance_names(), provenance_values(provenance));
    lemma_bytes_read_back(provenance.model_hash@);
    if provenance.dataset_hash is Some {
        lemma_bytes_read_back(provenance.dataset_hash.unwrap()@);
    }
    if provenance.signature_bundle is Some {
        lemma_bytes_read_back(provenance.signature_bundle.unwrap()@);
    }
}

/// A determinism configuration is read back from its record.
pub proof fn law_config_read_back(config: DeterminismConfig)
    ensures
        config_reading(config_model(config)) == Some(config@),
{
    lemma_config_names_ranked();
    law_record_fields_read_back(config_names(), config_values(config));
    if config.flags is Some {
        lemma_texts_read_back(text_views(config.flags.unwrap()@));
    }
}

/// The token of a trust mode stands for that mode.
pub proof fn lemma_token_read_back(mode: TrustMode)
    ensures
        token_mode(mode.token()) == Some(mode),
{
    reveal_strlit("trusted");
    reveal_strlit("soft_attestation");
    reveal_strlit("untrusted");
    assert("trusted"@.len() == 7);
    assert("soft_attestation"@.len() == 16);
    assert("untrusted"@.len() == 9);
    match mode {
        TrustMode::Trusted => {
            assert(mode.token() == "trusted"@);
        },
        TrustMode::SoftAttestation => {
            assert(mode.token() == "soft_attestation"@);
        },
        TrustMode::Untrusted => {
            assert(mode.token() == "untrusted"@);
        },
    }
}

/// Round trip of checkpoint records: a checkpoint that can be written is read back from its
/// record.
pub proof fn law_checkpoint_read_back(checkpoint: Checkpoint)
    requires
        encodable(checkpoint),
    ensures
        checkpoint_reading(checkpoint_model(checkpoint)) == Some(checkpoint@),
{
    lemma_checkpoint_names_ranked();
    law_record_fields_read_back(checkpoint_names(), checkpoint_values(checkpoint));
    lemma_bytes_read_back(checkpoint.prev_root@);
    lemma_bytes_read_back(checkpoint.signature.0@);
    lemma_bytes_read_back(checkpoint.entries_root@);
    lemma_bytes_read_back(checkpoint.firmware_hash@);
    lemma_bytes_read_back(checkpoint.enclave_measurement@);
    law_config_read_back(checkpoint.inference_config);
    law_provenance_read_back(checkpoint.model_provenance);
    lemma_token_read_back(checkpoint.trust_mode);
}


/// Why a signature check fails.
#[derive(Debug, Clone, Copy, PartialEq, Eq, Structural)]
pub enum SignatureError {
    /// The checkpoint has no encoding to check the signature against.
    SerializationFailed,
    /// The signature does not verify.
    InvalidSignature,
}

/// What checking the signature of a checkpoint under a public key gives.
pub open spec fn signature_check(checkpoint: Checkpoint, public_key: Seq<u8>) -> Result<
    (),
    SignatureError,
> {
    if !encodable(checkpoint) {
        Err(SignatureError::SerializationFailed)
    } else if ed25519_accepts(public_key, signed_message(checkpoint), checkpoint.signature.0@) {
        Ok(())
    } else {
        Err(SignatureError::InvalidSignature)
    }
}

/// Why a checkpoint cannot be built.
#[derive(Debug)]
pub enum BuildError {
    /// A required field was not set; the field's name is given.
    MissingField(&'static str),
    /// The checkpoint has no encoding to sign.
    SerializationFailed,
}

/// Builder for constructing checkpoints.
pub struct CheckpointBuilder {
    pub robot_id: Option<RobotId>,
    pub mission_id: Option<MissionId>,
    pub sequence: Option<u64>,
    pub monotonic_counter: Option<u64>,
    pub local_timestamp_utc: Option<Timestamp>,
    pub model_provenance: Option<ModelProvenance>,
    pub firmware_hash: Option<Hash256>,
    pub enclave_measurement: Option<Vec<u8>>,
    pub prev_root: Option<Hash256>,
    pub entries_root: Option<Hash256>,
    pub inference_config: Option<DeterminismConfig>,
    pub trust_mode: Option<TrustMode>,
}

/// A builder in which no field is set.
pub open spec fn empty_builder() -> CheckpointBuilder {
    CheckpointBuilder {
        robot_id: None,
        mission_id: None,
        sequence: None,
        monotonic_counter: None,
        local_timestamp_utc: None,
        model_provenance: None,
        firmware_hash: None,
        enclave_measurement: None,
        prev_root: None,
        entries_root: None,
        inference_config: None,
        trust_mode: None,
    }
}

/// The name of the first required field that is not set, in the order in which a checkpoint
/// lists its fields.
pub open spec fn missing_field(builder: CheckpointBuilder) -> Option<Seq<char>> {
    if builder.robot_id is None {
        Some("robot_id"@)
    } else if builder.mission_id is None {
        Some("mission_id"@)
    } else if builder.sequence is None {
        Some("sequence"@)
    } else if builder.monotonic_counter is None {
        Some("monotonic_counter"@)
    } else if builder.model_provenance is None {
        Some("model_provenance"@)
    } else if builder.firmware_hash is None {
        Some("firmware_hash"@)
    } else if builder.enclave_measurement is None {
        Some("enclave_measurement"@)
    } else if builder.prev_root is None {
        Some("prev_root"@)
    } else if builder.entries_root is None {
        Some("entries_root"@)
    } else if builder.inference_config is None {
        Some("inference_config"@)
    } else {
        None
    }
}

/// Whether `checkpoint` holds what was set in `builder`, with version 1, and with the trust
/// mode `Trusted` where none was set. Where no instant was set, the checkpoint's instant is
/// the wall clock's at build time, of which nothing is said.
pub open spec fn built_from(builder: CheckpointBuilder, checkpoint: Checkpoint) -> bool {
    &&& checkpoint.version == CHECKPOINT_VERSION
    &&& builder.robot_id == Some(checkpoint.robot_id)
    &&& builder.mission_id == Some(checkpoint.mission_id)
    &&& builder.sequence == Some(checkpoint.sequence)
    &&& builder.monotonic_counter == Some(checkpoint.monotonic_counter)
    &&& builder.local_timestamp_utc is Some ==> builder.local_timestamp_utc == Some(
        checkpoint.local_timestamp_utc,
    )
    &&& builder.model_provenance == Some(checkpoint.model_provenance)
    &&& builder.firmware_hash == Some(checkpoint.firmware_hash)
    &&& builder.enclave_measurement == Some(checkpoint.enclave_measurement)
    &&& builder.prev_root == Some(checkpoint.prev_root)
    &&& builder.entries_root == Some(checkpoint.entries_root)
    &&& builder.inference_config == Some(checkpoint.inference_config)
    &&& checkpoint.trust_mode == (match builder.trust_mode {
        Some(mode) => mode,
        None => TrustMode::Trusted,
    })
}

/// Whether `checkpoint` carries the signature of the key with seed `seed` over its own
/// unsigned form.
pub open spec fn signed_by(checkpoint: Checkpoint, seed: Seq<u8>) -> bool {
    &&& encodable(checkpoint)
    &&& checkpoint.signature.0@ == ed25519_signature(seed, signed_message(checkpoint))
    &&& signature_check(checkpoint, ed25519_public_key(seed)) == Ok::<(), SignatureError>(())
}

/// What `build_and_sign` owes for a builder and a key, whatever the clock says: a missing
/// required field is reported by name, the first one first; with all of them set, the
/// checkpoint holds the builder's fields and is signed by the key, unless its instant has no
/// text form, which fails serialization.
pub open spec fn build_outcome(
    builder: CheckpointBuilder,
    seed: Seq<u8>,
    result: Result<Checkpoint, BuildError>,
) -> bool {
    match result {
        Ok(checkpoint) => missing_field(builder) is None && built_from(builder, checkpoint)
            && signed_by(checkpoint, seed),
        Err(BuildError::MissingField(name)) => missing_field(builder) == Some(name@),
        Err(BuildError::SerializationFailed) => missing_field(builder) is None && (
        builder.local_timestamp_utc is Some ==> timestamp_text(
            builder.local_timestamp_utc.unwrap(),
        ) is None),
    }
}

impl CheckpointBuilder {
    /// Create a builder in which no field is set.
    pub fn new() -> (builder: CheckpointBuilder)
        ensures
            builder == empty_builder(),
    {
        CheckpointBuilder {
            robot_id: None,
            mission_id: None,
            sequence: None,
            monotonic_counter: None,
            local_timestamp_utc: None,
            model_provenance: None,
            firmware_hash: None,
            enclave_measurement: None,
            prev_root: None,
            entries_root: None,
            inference_config: None,
            trust_mode: None,
        }
    }

    /// Set the robot identifier.
    pub fn robot_id(self, id: RobotId) -> (builder: CheckpointBuilder)
        ensures
            builder == (CheckpointBuilder { robot_id: Some(id), ..self }),
    {
        let mut builder = self;
        builder.robot_id = Some(id);
        builder
    }

    /// Set the mission identifier.
    pub fn mission_id(self, id: MissionId) -> (builder: CheckpointBuilder)
        ensures
            builder == (CheckpointBuilder { mission_id: Some(id), ..self }),
    {
        let mut builder = self;
        builder.mission_id = Some(id);
        builder
    }

    /// Set the sequence number.
    pub fn sequence(self, seq: u64) -> (builder: CheckpointBuilder)
        ensures
            builder == (CheckpointBuilder { sequence: Some(seq), ..self }),
    {
        let mut builder = self;
        builder.sequence = Some(seq);
        builder
    }

    /// Set the value of the hardware-backed monotonic counter.
    pub fn monotonic_counter(self, counter: u64) -> (builder: CheckpointBuilder)
        ensures
            builder == (CheckpointBuilder { monotonic_counter: Some(counter), ..self }),
    {
        let mut builder = self;
        builder.monotonic_counter = Some(counter);
        builder
    }

    /// Set the instant of the robot clock; the wall clock at build time is taken if none is set.
    pub fn timestamp(self, ts: Timestamp) -> (builder: CheckpointBuilder)
        ensures
            builder == (CheckpointBuilder { local_timestamp_utc: Some(ts), ..self }),
    {
        let mut builder = self;
        builder.local_timestamp_utc = Some(ts);
        builder
    }

    /// Set the model provenance.
    pub fn model_provenance(self, prov: ModelProvenance) -> (builder: CheckpointBuilder)
        ensures
            builder == (CheckpointBuilder { model_provenance: Some(prov), ..self }),
    {
        let mut builder = self;
        builder.model_provenance = Some(prov);
        builder
    }

    /// Set the firmware hash.
    pub fn firmware_hash(self, hash: Hash256) -> (builder: CheckpointBuilder)
        ensures
            builder == (CheckpointBuilder { firmware_hash: Some(hash), ..self }),
    {
        let mut builder = self;
        builder.firmware_hash = Some(hash);
        builder
    }

    /// Set the enclave measurement.
    pub fn enclave_measurement(self, measurement: Vec<u8>) -> (builder: CheckpointBuilder)
        ensures
            builder == (CheckpointBuilder { enclave_measurement: Some(measurement), ..self }),
    {
        let mut builder = self;
        builder.enclave_measurement = Some(measurement);
        builder
    }

    /// Set the hash of the previous checkpoint; 32 zero bytes for the first of a mission.
    pub fn prev_root(self, root: Hash256) -> (builder: CheckpointBuilder)
        ensures
            builder == (CheckpointBuilder { prev_root: Some(root), ..self }),
    {
        let mut builder = self;
        builder.prev_root = Some(root);
        builder
    }

    /// Set the Merkle root of the log entries since the last checkpoint.
    pub fn entries_root(self, root: Hash256) -> (builder: CheckpointBuilder)
        ensures
            builder == (CheckpointBuilder { entries_root: Some(root), ..self }),
    {
        let mut builder = self;
        builder.entries_root = Some(root);
        builder
    }

    /// Set the inference configuration.
    pub fn inference_config(self, config: DeterminismConfig) -> (builder: CheckpointBuilder)
        ensures
            builder == (CheckpointBuilder { inference_config: Some(config), ..self }),
    {
        let mut builder = self;
        builder.inference_config = Some(config);
        builder
    }

    /// Set the trust mode; `Trusted` is taken if none is set.
    pub fn trust_mode(self, mode: TrustMode) -> (builder: CheckpointBuilder)
        ensures
            builder == (CheckpointBuilder { trust_mode: Some(mode), ..self }),
    {
        let mut builder = self;
        builder.trust_mode = Some(mode);
        builder
    }

    /// Build and sign the checkpoint using the provided signing key.
    ///
    /// The signature is taken over the canonical encoding of the unsigned checkpoint, so the
    /// checkpoint that comes back verifies under the key's public key.
    pub fn build_and_sign(self, signing_key: &SigningKey) -> (result: Result<
        Checkpoint,
        BuildError,
    >)
        ensures
            build_outcome(self, signing_key@, result),
    {
        let robot_id = match self.robot_id {
            Some(set) => set,
            None => {
                return Err(BuildError::MissingField("robot_id"));
            },
        };
        let mission_id = match self.mission_id {
            Some(set) => set,
            None => {
                return Err(BuildError::MissingField("mission_id"));
            },
        };
        let sequence = match self.sequence {
            Some(set) => set,
            None => {
                return Err(BuildError::MissingField("sequence"));
            },
        };
        let monotonic_counter = match self.monotonic_counter {
            Some(set) => set,
            None => {
                return Err(BuildError::MissingField("monotonic_counter"));
            },
        };
        let local_timestamp_utc = match self.local_timestamp_utc {
            Some(set) => set,
            None => Timestamp::now(),
        };
        let model_provenance = match self.model_provenance {
            Some(set) => set,
            None => {
                return Err(BuildError::MissingField("model_provenance"));
            },
        };
        let firmware_hash = match self.firmware_hash {
            Some(set) => set,
            None => {
                return Err(BuildError::MissingField("firmware_hash"));
            },
        };
        let enclave_measurement = match self.enclave_measurement {
            Some(set) => set,
            None => {
                return Err(BuildError::MissingField("enclave_measurement"));
            },
        };
        let prev_root = match self.prev_root {
            Some(set) => set,
            None => {
                return Err(BuildError::MissingField("prev_root"));
            },
        };
        let entries_root = match self.entries_root {
            Some(set) => set,
            None => {
                return Err(BuildError::MissingField("entries_root"));
            },
        };
        let inference_config = match self.inference_config {
            Some(set) => set,
            None => {
                return Err(BuildError::MissingField("inference_config"));
            },
        };
        let trust_mode = match self.trust_mode {
            Some(set) => set,
            None => TrustMode::Trusted,
        };
        let mut checkpoint = Checkpoint {
            version: CHECKPOINT_VERSION,
            robot_id,
            mission_id,
            sequence,
            monotonic_counter,
            local_timestamp_utc,
            model_provenance,
            firmware_hash,
            enclave_measurement,
            prev_root,
            entries_root,
            inference_config,
            trust_mode,
            signature: SignatureBytes::from([0u8; 64]),
        };
        let message = match checkpoint.unsigned_bytes() {
            Ok(bytes) => bytes,
            Err(_) => {
                return Err(BuildError::SerializationFailed);
            },
        };
        let ghost unsigned = checkpoint;
        let signature = signing_key.sign(message.as_slice());
        checkpoint.signature = SignatureBytes::from(signature.to_bytes());
        proof {
            assert(unsigned_values(checkpoint) =~= unsigned_values(unsigned));
        }
        Ok(checkpoint)
    }
}

impl Default for CheckpointBuilder {
    fn default() -> (builder: CheckpointBuilder)
        ensures
            builder == empty_builder(),
    {
        CheckpointBuilder::new()
    }
}

/// Why a chain of checkpoints is refused; `index` is the position of the checkpoint at fault.
#[derive(Debug, Clone, Copy, PartialEq, Eq, Structural)]
pub enum ChainError {
    /// The checkpoint's signature check failed.
    Signature { index: usize, reason: SignatureError },
    /// `prev_root` is not the hash of the checkpoint before.
    PrevRootMismatch { index: usize },
    /// `sequence` is not one more than that of the checkpoint before.
    SequenceNotNext { index: usize },
    /// `monotonic_counter` is not greater than that of the checkpoint before.
    CounterNotIncreasing { index: usize },
}

/// Whether `next` continues the chain after `previous`: it carries the hash of `previous` as
/// `prev_root`, the next sequence number, and a greater monotonic counter.
pub open spec fn link_holds(previous: Checkpoint, next: Checkpoint) -> bool {
    &&& encodable(previous)
    &&& next.prev_root@ == checkpoint_digest(previous)
    &&& next.sequence == previous.sequence + 1
    &&& next.monotonic_counter > previous.monotonic_counter
}

/// Whether the checkpoint at position `k` of a chain continues the chain after the one
/// before it.
pub open spec fn continues_at(chain: Seq<Checkpoint>, k: int) -> bool {
    link_holds(chain[k - 1], chain[k])
}

/// The fault of the link from `previous` to the checkpoint `next` at position `index`, if the
/// link has one. A `previous` that cannot be written has no hash to be carried on.
pub open spec fn link_fault(previous: Checkpoint, next: Checkpoint, index: usize) -> Option<
    ChainError,
> {
    if !encodable(previous) || next.prev_root@ != checkpoint_digest(previous) {
        Some(ChainError::PrevRootMismatch { index })
    } else if next.sequence != previous.sequence + 1 {
        Some(ChainError::SequenceNotNext { index })
    } else if next.monotonic_counter <= previous.monotonic_counter {
        Some(ChainError::CounterNotIncreasing { index })
    } else {
        None
    }
}

/// The first fault among the signatures of the first `count` checkpoints.
pub open spec fn signatures_fault(chain: Seq<Checkpoint>, public_key: Seq<u8>, count: nat) -> Option<
    ChainError,
>
    decreases count,
{
    if count == 0 || count > chain.len() {
        None
    } else {
        match signatures_fault(chain, public_key, (count - 1) as nat) {
            Some(fault) => Some(fault),
            None => match signature_check(chain[count - 1], public_key) {
                Err(reason) => Some(ChainError::Signature { index: (count - 1) as usize, reason }),
                Ok(_) => None,
            },
        }
    }
}

/// The first fault among the links between the first `count` checkpoints.
pub open spec fn links_fault(chain: Seq<Checkpoint>, count: nat) -> Option<ChainError>
    decreases count,
{
    if count <= 1 || count > chain.len() {
        None
    } else {
        match links_fault(chain, (count - 1) as nat) {
            Some(fault) => Some(fault),
            None => link_fault(chain[count - 2], chain[count - 1], (count - 1) as usize),
        }
    }
}

/// The first fault of a chain: every signature is checked first, then every link.
pub open spec fn chain_fault(chain: Seq<Checkpoint>, public_key: Seq<u8>) -> Option<ChainError> {
    match signatures_fault(chain, public_key, chain.len()) {
        Some(fault) => Some(fault),
        None => links_fault(chain, chain.len()),
    }
}

/// Verify the link from one checkpoint to the next, without checking signatures.
pub fn verify_link(previous: &Checkpoint, next: &Checkpoint, index: usize) -> (result: Result<
    (),
    ChainError,
>)
    ensures
        result is Ok <==> link_fault(*previous, *next, index) is None,
        result is Err ==> link_fault(*previous, *next, index) == Some(result.unwrap_err()),
{
    let expected = match previous.compute_hash() {
        Ok(hash) => hash,
        Err(_) => {
            return Err(ChainError::PrevRootMismatch { index });
        },
    };
    if !hash_eq(&next.prev_root, &expected) {
        return Err(ChainError::PrevRootMismatch { index });
    }
    if previous.sequence == u64::MAX || next.sequence != previous.sequence + 1 {
        return Err(ChainError::SequenceNotNext { index });
    }
    if next.monotonic_counter <= previous.monotonic_counter {
        return Err(ChainError::CounterNotIncreasing { index });
    }
    Ok(())
}

/// Verify a chain of checkpoints: the signature of each under `public_key`, then for each
/// checkpoint after the first that it continues the chain after the one before it.
pub fn verify_chain(checkpoints: &[Checkpoint], public_key: &VerifyingKey) -> (result: Result<
    (),
    ChainError,
>)
    ensures
        result is Ok <==> chain_fault(checkpoints@, public_key@) is None,
        result is Err ==> chain_fault(checkpoints@, public_key@) == Some(result.unwrap_err()),
{
    let mut i: usize = 0;
    while i < checkpoints.len()
        invariant
            i <= checkpoints.len(),
            signatures_fault(checkpoints@, public_key@, i as nat) is None,
        decreases checkpoints.len() - i,
    {
        match checkpoints[i].verify_signature(public_key) {
            Ok(_) => {},
            Err(reason) => {
                proof {
                    lemma_signatures_fault_stays(
                        checkpoints@,
                        public_key@,
                        (i + 1) as nat,
                        checkpoints@.len(),
                    );
                }
                return Err(ChainError::Signature { index: i, reason });
            },
        }
        i += 1;
    }
    let mut j: usize = 1;
    while j < checkpoints.len()
        invariant
            1 <= j,
            signatures_fault(checkpoints@, public_key@, checkpoints@.len()) is None,
            j < checkpoints.len() ==> links_fault(checkpoints@, j as nat) is None,
            j >= checkpoints.len() ==> links_fault(checkpoints@, checkpoints@.len()) is None,
        decreases checkpoints.len() - j,
    {
        match verify_link(&checkpoints[j - 1], &checkpoints[j], j) {
            Ok(_) => {},
            Err(fault) => {
                proof {
                    lemma_links_fault_stays(checkpoints@, (j + 1) as nat, checkpoints@.len());
                }
                return Err(fault);
            },
        }
        j += 1;
    }
    Ok(())
}

/// A fault among the first signatures stays the first fault when more are checked.
pub proof fn lemma_signatures_fault_stays(
    chain: Seq<Checkpoint>,
    public_key: Seq<u8>,
    found: nat,
    count: nat,
)
    requires
        found <= count <= chain.len(),
        signatures_fault(chain, public_key, found) is Some,
    ensures
        signatures_fault(chain, public_key, count) == signatures_fault(chain, public_key, found),
    decreases count,
{
    if found < count {
        lemma_signatures_fault_stays(chain, public_key, found, (count - 1) as nat);
    }
}

/// A fault among the first links stays the first fault when more are checked.
pub proof fn lemma_links_fault_stays(chain: Seq<Checkpoint>, found: nat, count: nat)
    requires
        found <= count <= chain.len(),
        links_fault(chain, found) is Some,
    ensures
        links_fault(chain, count) == links_fault(chain, found),
    decreases count,
{
    if found < count {
        lemma_links_fault_stays(chain, found, (count - 1) as nat);
    }
}

/// Where no signature is at fault, every checkpoint's signature check succeeds.
pub proof fn lemma_checked_signatures(chain: Seq<Checkpoint>, public_key: Seq<u8>, count: nat)
    requires
        count <= chain.len(),
        signatures_fault(chain, public_key, count) is None,
    ensures
        forall|k: int|
            0 <= k < count ==> signature_check(#[trigger] chain[k], public_key) == Ok::<
                (),
                SignatureError,
            >(()),
    decreases count,
{
    if count > 0 {
        lemma_checked_signatures(chain, public_key, (count - 1) as nat);
    }
}

/// Where no link is at fault, every checkpoint continues the chain after the one before it.
pub proof fn lemma_checked_links(chain: Seq<Checkpoint>, count: nat)
    requires
        count <= chain.len(),
        links_fault(chain, count) is None,
    ensures
        forall|k: int| 0 < k < count ==> #[trigger] continues_at(chain, k),
    decreases count,
{
    if count > 1 {
        lemma_checked_links(chain, (count - 1) as nat);
        assert(link_fault(chain[count - 2], chain[count - 1], (count - 1) as usize) is None);
        assert(continues_at(chain, count - 1));
    }
}

/// An accepted chain is sound: every checkpoint is signed by the key, and each one after the
/// first carries the hash of the one before it as `prev_root`, the next sequence number and
/// a greater monotonic counter. So sequence numbers and counters increase strictly along
/// the chain.
pub proof fn law_accepted_chain_is_sound(chain: Seq<Checkpoint>, public_key: Seq<u8>)
    requires
        chain_fault(chain, public_key) is None,
    ensures
        forall|k: int|
            0 <= k < chain.len() ==> signature_check(#[trigger] chain[k], public_key) == Ok::<
                (),
                SignatureError,
            >(()),
        forall|k: int| 0 < k < chain.len() ==> #[trigger] continues_at(chain, k),
{
    lemma_checked_signatures(chain, public_key, chain.len());
    lemma_checked_links(chain, chain.len());
}

/// Only the record of a provenance reads as that provenance.
pub proof fn law_provenance_reading_is_exact(value: CborModel, provenance: ModelProvenance)
    requires
        provenance_reading(value) == Some(provenance@),
    ensures
        value == provenance_model(provenance),
{
    let names = provenance_names();
    let fields = record_fields(value, names).unwrap();
    law_fields_determine_record(value, names);
    lemma_bytes_value_unique(fields[1].unwrap());
    if fields[2] is Some {
        lemma_bytes_value_unique(fields[2].unwrap());
    }
    if fields[4] is Some {
        lemma_bytes_value_unique(fields[4].unwrap());
    }
    assert(fields =~= provenance_values(provenance));
}

/// Only the record of a configuration reads as that configuration.
pub proof fn law_config_reading_is_exact(value: CborModel, config: DeterminismConfig)
    requires
        config_reading(value) == Some(config@),
    ensures
        value == config_model(config),
{
    let names = config_names();
    let fields = record_fields(value, names).unwrap();
    law_fields_determine_record(value, names);
    if fields[0] is Some {
        lemma_texts_value_unique(fields[0].unwrap());
    }
    assert(fields =~= config_values(config));
}

/// The token that stands for a mode is the only text that reads as the mode.
pub proof fn lemma_token_is_exact(token: Seq<char>, mode: TrustMode)
    requires
        token_mode(token) == Some(mode),
    ensures
        token == mode.token(),
{
}

/// Only the record of a checkpoint reads as that checkpoint: a value that reads as a
/// checkpoint is the record of it, and the checkpoint can be written.
pub proof fn law_checkpoint_reading_is_exact(value: CborModel, checkpoint: Checkpoint)
    requires
        checkpoint_reading(value) == Some(checkpoint@),
    ensures
        encodable(checkpoint),
        value == checkpoint_model(checkpoint),
{
    let names = checkpoint_names();
    let fields = record_fields(value, names).unwrap();
    law_fields_determine_record(value, names);
    lemma_bytes_value_unique(fields[3].unwrap());
    lemma_bytes_value_unique(fields[4].unwrap());
    lemma_token_is_exact(fields[6].unwrap()->Text_0, checkpoint.trust_mode);
    lemma_bytes_value_unique(fields[7].unwrap());
    lemma_bytes_value_unique(fields[8].unwrap());
    law_config_reading_is_exact(fields[9].unwrap(), checkpoint.inference_config);
    law_provenance_reading_is_exact(fields[10].unwrap(), checkpoint.model_provenance);
    lemma_bytes_value_unique(fields[12].unwrap());
    let wanted = checkpoint_values(checkpoint);
    assert(fields[0] == wanted[0]);
    assert(fields[1] == wanted[1]);
    assert(fields[2] == wanted[2]);
    assert(fields[3] == wanted[3]);
    assert(fields[4] == wanted[4]);
    assert(fields[5] == wanted[5]);
    assert(fields[6] == wanted[6]);
    assert(fields[7] == wanted[7]);
    assert(fields[8] == wanted[8]);
    assert(fields[9] == wanted[9]);
    assert(fields[10] == wanted[10]);
    assert(fields[11] == wanted[11]);
    assert(fields[12] == wanted[12]);
    assert(fields[13] == wanted[13]);
    assert(fields =~= wanted);
}

/// Encoding is a function of the value: checkpoints that are equal as values are written
/// as the same record, and so as the same bytes, by every encoder and on every run.
pub proof fn law_equal_checkpoints_encode_equally(first: Checkpoint, second: Checkpoint)
    requires
        first@ == second@,
    ensures
        checkpoint_model(first) == checkpoint_model(second),
        unsigned_model(first) == unsigned_model(second),
        encoding(checkpoint_model(first)) == encoding(checkpoint_model(second)),
        signed_message(first) == signed_message(second),
        checkpoint_digest(first) == checkpoint_digest(second),
{
    assert(provenance_values(first.model_provenance) =~= provenance_values(
        second.model_provenance,
    ));
    assert(config_values(first.inference_config) =~= config_values(second.inference_config));
    assert(checkpoint_values(first) =~= checkpoint_values(second));
    assert(unsigned_values(first) =~= unsigned_values(second));
}

} // verus!
