//! The records of the Merkle log and of attestation results in the canonical encoding.

use crate::cbor::{
    entry_models, keys_sorted, lemma_array_model, models, CborModel, CborValue, EncodeError,
    SerializationError,
};
use crate::checkpoint::{lemma_bytes_sorted, no_timestamp_text};
use crate::merkle::{hash_seq, Entry, MerkleProof};
use crate::record::{
    as_hash, as_text, bytes_model, bytes_value, field_model, field_models,
    law_fields_determine_record, law_record_fields_read_back, lemma_bytes_read_back,
    lemma_bytes_value_unique, lemma_record_sorted, model_bytes, model_hash, name_views,
    names_ranked, optional_bytes, optional_bytes_view, optional_text, optional_view, push_field,
    read_bytes, read_fields, read_hash, read_optional_bytes, read_optional_text, read_text,
    read_unsigned, record_entries, record_fields, record_model, record_value, required_bytes,
    required_hash, required_text, required_unsigned, text_value, unsigned_value,
};
use crate::types::{
    same_text, text_timestamp, timestamp_text, AttestationResult, Hash256, RevocationStatus,
    Timestamp,
};
use vstd::prelude::*;

verus! {

/// An entry as a mathematical value.
pub struct EntryView {
    pub timestamp_us: u64,
    pub nonce: u64,
    pub data_hash: Seq<u8>,
}

impl View for Entry {
    type V = EntryView;

    open spec fn view(&self) -> EntryView {
        EntryView {
            timestamp_us: self.timestamp_us,
            nonce: self.nonce,
            data_hash: self.data_hash@,
        }
    }
}

/// The field names of an entry record, in the order of their encodings.
pub open spec fn entry_names() -> Seq<Seq<char>> {
    seq!["nonce"@, "data_hash"@, "timestamp_us"@]
}

/// The field values of an entry record.
pub open spec fn entry_values(entry: EntryView) -> Seq<Option<CborModel>> {
    seq![
        Some(CborModel::Unsigned(entry.nonce)),
        Some(bytes_model(entry.data_hash)),
        Some(CborModel::Unsigned(entry.timestamp_us)),
    ]
}

/// The record that stands for an entry.
pub open spec fn entry_model(entry: EntryView) -> CborModel {
    record_model(entry_names(), entry_values(entry))
}

/// The entry that a record value stands for, if it stands for one.
pub open spec fn entry_reading(value: CborModel) -> Option<EntryView> {
    match record_fields(value, entry_names()) {
        None => None,
        Some(fields) => {
            let nonce = required_unsigned(fields[0]);
            let data_hash = required_hash(fields[1]);
            let timestamp_us = required_unsigned(fields[2]);
            if nonce is Some && data_hash is Some && timestamp_us is Some {
                Some(
                    EntryView {
                        timestamp_us: timestamp_us.unwrap(),
                        nonce: nonce.unwrap(),
                        data_hash: data_hash.unwrap(),
                    },
                )
            } else {
                None
            }
        },
    }
}

/// The field names of an entry record stand in the order of their encodings.
pub proof fn lemma_entry_names_ranked()
    ensures
        names_ranked(entry_names()),
{
    reveal_strlit("nonce");
    reveal_strlit("data_hash");
    reveal_strlit("timestamp_us");
}

impl Entry {
    /// The record that stands for this entry.
    pub fn to_value(&self) -> (value: CborValue)
        ensures
            value@ == entry_model(self@),
            keys_sorted(value@),
    {
        let ghost names = entry_names();
        let ghost values = entry_values(self@);
        let mut entries: Vec<(CborValue, CborValue)> = Vec::new();
        assert(entry_models(entries@) =~= record_entries(names, values, 0));
        push_field(&mut entries, "nonce", Some(unsigned_value(self.nonce)));
        assert(entry_models(entries@) == record_entries(names, values, 1));
        push_field(&mut entries, "data_hash", Some(bytes_value(self.data_hash.as_slice())));
        assert(entry_models(entries@) == record_entries(names, values, 2));
        push_field(&mut entries, "timestamp_us", Some(unsigned_value(self.timestamp_us)));
        assert(entry_models(entries@) == record_entries(names, values, 3));
        proof {
            lemma_entry_names_ranked();
            lemma_bytes_sorted(self.data_hash@);
            lemma_record_sorted(names, values);
        }
        record_value(entries)
    }

    /// Read an entry from the record that stands for it.
    pub fn from_value(value: &CborValue) -> (entry: Option<Entry>)
        ensures
            entry is Some <==> entry_reading(value@) is Some,
            entry is Some ==> entry_reading(value@) == Some(entry.unwrap()@),
    {
        let names: [&'static str; 3] = ["nonce", "data_hash", "timestamp_us"];
        assert(name_views(names@) =~= entry_names());
        let fields = match read_fields(value, names.as_slice()) {
            Some(fields) => fields,
            None => {
                return None;
            },
        };
        let ghost read = field_models(fields@);
        assert forall|i: int| 0 <= i < 3 implies read[i] == field_model(fields@[i]) by {}
        let nonce = match read_unsigned(fields[0]) {
            Some(n) => n,
            None => {
                return None;
            },
        };
        let data_hash = match read_hash(fields[1]) {
            Some(hash) => hash,
            None => {
                return None;
            },
        };
        let timestamp_us = match read_unsigned(fields[2]) {
            Some(n) => n,
            None => {
                return None;
            },
        };
        Some(Entry { timestamp_us, nonce, data_hash })
    }
}

/// An entry is read back from its record.
pub proof fn law_entry_read_back(entry: Entry)
    ensures
        entry_reading(entry_model(entry@)) == Some(entry@),
{
    lemma_entry_names_ranked();
    law_record_fields_read_back(entry_names(), entry_values(entry@));
    lemma_bytes_read_back(entry.data_hash@);
}

/// Only the record of an entry reads as that entry.
pub proof fn law_entry_reading_is_exact(value: CborModel, entry: EntryView)
    requires
        entry_reading(value) == Some(entry),
    ensures
        value == entry_model(entry),
{
    let fields = record_fields(value, entry_names()).unwrap();
    law_fields_determine_record(value, entry_names());
    lemma_bytes_value_unique(fields[1].unwrap());
    assert(fields =~= entry_values(entry));
}

/// The value of a list of hashes in a record.
pub open spec fn hashes_model(hashes: Seq<Seq<u8>>) -> CborModel {
    CborModel::Array(Seq::new(hashes.len(), |i: int| bytes_model(hashes[i])))
}

/// The list of hashes that a record value holds, if it holds one.
pub open spec fn model_hashes(value: CborModel) -> Option<Seq<Seq<u8>>> {
    match value {
        CborModel::Array(items) => if forall|i: int|
            0 <= i < items.len() ==> model_hash(#[trigger] items[i]) is Some {
            Some(Seq::new(items.len(), |i: int| model_hash(items[i]).unwrap()))
        } else {
            None
        },
        _ => None,
    }
}

/// A list of 32-byte hashes is read back from its record value.
pub proof fn lemma_hashes_read_back(hashes: Seq<Seq<u8>>)
    requires
        forall|i: int| 0 <= i < hashes.len() ==> (#[trigger] hashes[i]).len() == 32,
    ensures
        model_hashes(hashes_model(hashes)) == Some(hashes),
        keys_sorted(hashes_model(hashes)),
{
    let items = hashes_model(hashes)->Array_0;
    assert forall|i: int| 0 <= i < items.len() implies model_hash(#[trigger] items[i]) == Some(
        hashes[i],
    ) && keys_sorted(items[i]) by {
        lemma_bytes_read_back(hashes[i]);
        lemma_bytes_sorted(hashes[i]);
    }
    assert(model_hashes(hashes_model(hashes)).unwrap() =~= hashes);
}

/// A record value that reads as a list of hashes is the value of that list.
pub proof fn lemma_hashes_value_unique(value: CborModel)
    requires
        model_hashes(value) is Some,
    ensures
        hashes_model(model_hashes(value).unwrap()) == value,
{
    let items = value->Array_0;
    let hashes = model_hashes(value).unwrap();
    assert forall|i: int| 0 <= i < items.len() implies bytes_model(hashes[i]) == items[i] by {
        assert(model_hash(items[i]) is Some);
        lemma_bytes_value_unique(items[i]);
    }
    assert(hashes_model(hashes)->Array_0 =~= items);
}

/// The value of a list of hashes in a record.
pub fn hashes_value(hashes: &Vec<Hash256>) -> (value: CborValue)
    ensures
        value@ == hashes_model(hash_seq(hashes@)),
{
    let mut items: Vec<CborValue> = Vec::new();
    let mut i: usize = 0;
    while i < hashes.len()
        invariant
            i <= hashes.len(),
            items@.len() == i,
            forall|j: int| 0 <= j < i ==> (#[trigger] items@[j])@ == bytes_model(hashes@[j]@),
        decreases hashes.len() - i,
    {
        items.push(bytes_value(hashes[i].as_slice()));
        i += 1;
    }
    proof {
        lemma_array_model(items);
        assert(models(items@) =~= hashes_model(hash_seq(hashes@))->Array_0);
    }
    CborValue::Array(items)
}

/// The list of hashes that a field holds, if it holds one.
pub fn as_hashes(value: &CborValue) -> (hashes: Option<Vec<Hash256>>)
    ensures
        hashes is Some <==> model_hashes(value@) is Some,
        hashes is Some ==> model_hashes(value@) == Some(hash_seq(hashes.unwrap()@)),
{
    let items = match value {
        CborValue::Array(items) => items,
        _ => {
            return None;
        },
    };
    proof {
        lemma_array_model(*items);
    }
    let ghost all = models(items@);
    let mut hashes: Vec<Hash256> = Vec::new();
    let mut i: usize = 0;
    while i < items.len()
        invariant
            i <= items.len(),
            all == models(items@),
            value@ == CborModel::Array(all),
            hashes@.len() == i,
            forall|j: int| 0 <= j < i ==> model_hash(#[trigger] all[j]) == Some(hashes@[j]@),
        decreases items.len() - i,
    {
        match as_hash(&items[i]) {
            Some(hash) => {
                hashes.push(hash);
            },
            None => {
                assert(model_hash(all[i as int]) is None);
                return None;
            },
        }
        i += 1;
    }
    assert(hash_seq(hashes@) =~= model_hashes(value@).unwrap());
    Some(hashes)
}

/// A Merkle proof as a mathematical value.
pub struct ProofView {
    pub leaf: EntryView,
    pub leaf_index: usize,
    pub siblings: Seq<Seq<u8>>,
    pub root: Seq<u8>,
}

impl View for MerkleProof {
    type V = ProofView;

    open spec fn view(&self) -> ProofView {
        ProofView {
            leaf: self.leaf@,
            leaf_index: self.leaf_index,
            siblings: hash_seq(self.siblings@),
            root: self.root@,
        }
    }
}

/// The field names of a Merkle proof record, in the order of their encodings.
pub open spec fn proof_names() -> Seq<Seq<char>> {
    seq!["leaf"@, "root"@, "siblings"@, "leaf_index"@]
}

/// The field values of a Merkle proof record.
pub open spec fn proof_values(proof: ProofView) -> Seq<Option<CborModel>> {
    seq![
        Some(entry_model(proof.leaf)),
        Some(bytes_model(proof.root)),
        Some(hashes_model(proof.siblings)),
        Some(CborModel::Unsigned(proof.leaf_index as u64)),
    ]
}

/// The record that stands for a Merkle proof.
pub open spec fn proof_model(proof: ProofView) -> CborModel {
    record_model(proof_names(), proof_values(proof))
}

/// The nested entry record of a field that must be present.
pub open spec fn required_entry(field: Option<CborModel>) -> Option<EntryView> {
    match field {
        Some(value) => entry_reading(value),
        None => None,
    }
}

/// The list of hashes of a field that must be present.
pub open spec fn required_hashes(field: Option<CborModel>) -> Option<Seq<Seq<u8>>> {
    match field {
        Some(value) => model_hashes(value),
        None => None,
    }
}

/// The Merkle proof that a record value stands for, if it stands for one.
pub open spec fn proof_reading(value: CborModel) -> Option<ProofView> {
    match record_fields(value, proof_names()) {
        None => None,
        Some(fields) => {
            let leaf = required_entry(fields[0]);
            let root = required_hash(fields[1]);
            let siblings = required_hashes(fields[2]);
            let leaf_index = required_unsigned(fields[3]);
            if leaf is Some && root is Some && siblings is Some && leaf_index is Some
                && leaf_index.unwrap() <= usize::MAX {
                Some(
                    ProofView {
                        leaf: leaf.unwrap(),
                        leaf_index: leaf_index.unwrap() as usize,
                        siblings: siblings.unwrap(),
                        root: root.unwrap(),
                    },
                )
            } else {
                None
            }
        },
    }
}

/// The field names of a Merkle proof record stand in the order of their encodings.
pub proof fn lemma_proof_names_ranked()
    ensures
        names_ranked(proof_names()),
{
    reveal_strlit("leaf");
    reveal_strlit("root");
    reveal_strlit("siblings");
    reveal_strlit("leaf_index");
}

/// The hashes of a list are 32 bytes each.
pub proof fn lemma_hash_seq_lengths(hashes: Seq<Hash256>)
    ensures
        forall|i: int| 0 <= i < hash_seq(hashes).len() ==> (#[trigger] hash_seq(hashes)[i]).len() == 32,
{
}

impl MerkleProof {
    /// The record that stands for this proof.
    pub fn to_value(&self) -> (value: CborValue)
        ensures
            value@ == proof_model(self@),
            keys_sorted(value@),
    {
        let ghost names = proof_names();
        let ghost values = proof_values(self@);
        let mut entries: Vec<(CborValue, CborValue)> = Vec::new();
        assert(entry_models(entries@) =~= record_entries(names, values, 0));
        push_field(&mut entries, "leaf", Some(self.leaf.to_value()));
        assert(entry_models(entries@) == record_entries(names, values, 1));
        push_field(&mut entries, "root", Some(bytes_value(self.root.as_slice())));
        assert(entry_models(entries@) == record_entries(names, values, 2));
        push_field(&mut entries, "siblings", Some(hashes_value(&self.siblings)));
        assert(entry_models(entries@) == record_entries(names, values, 3));
        push_field(&mut entries, "leaf_index", Some(unsigned_value(self.leaf_index as u64)));
        assert(entry_models(entries@) == record_entries(names, values, 4));
        proof {
            lemma_proof_names_ranked();
            lemma_bytes_sorted(self.root@);
            lemma_hash_seq_lengths(self.siblings@);
            lemma_hashes_read_back(hash_seq(self.siblings@));
            lemma_record_sorted(names, values);
        }
        record_value(entries)
    }

    /// Read a Merkle proof from the record that stands for it.
    pub fn from_value(value: &CborValue) -> (proof_read: Option<MerkleProof>)
        ensures
            proof_read is Some <==> proof_reading(value@) is Some,
            proof_read is Some ==> proof_reading(value@) == Some(proof_read.unwrap()@),
    {
        let names: [&'static str; 4] = ["leaf", "root", "siblings", "leaf_index"];
        assert(name_views(names@) =~= proof_names());
        let fields = match read_fields(value, names.as_slice()) {
            Some(fields) => fields,
            None => {
                return None;
            },
        };
        let ghost read = field_models(fields@);
        assert forall|i: int| 0 <= i < 4 implies read[i] == field_model(fields@[i]) by {}
        let leaf = match fields[0] {
            Some(nested) => match Entry::from_value(nested) {
                Some(entry) => entry,
                None => {
                    return None;
                },
            },
            None => {
                return None;
            },
        };
        let root = match read_hash(fields[1]) {
            Some(hash) => hash,
            None => {
                return None;
            },
        };
        let siblings = match fields[2] {
            Some(nested) => match as_hashes(nested) {
                Some(hashes) => hashes,
                None => {
                    return None;
                },
            },
            None => {
                return None;
            },
        };
        let leaf_index = match read_unsigned(fields[3]) {
            Some(n) => n,
            None => {
                return None;
            },
        };
        if leaf_index > usize::MAX as u64 {
            return None;
        }
        Some(MerkleProof { leaf, leaf_index: leaf_index as usize, siblings, root })
    }
}

/// A Merkle proof is read back from its record.
pub proof fn law_proof_read_back(proof: MerkleProof)
    ensures
        proof_reading(proof_model(proof@)) == Some(proof@),
{
    lemma_proof_names_ranked();
    law_record_fields_read_back(proof_names(), proof_values(proof@));
    law_entry_read_back(proof.leaf);
    lemma_bytes_read_back(proof.root@);
    lemma_hash_seq_lengths(proof.siblings@);
    lemma_hashes_read_back(hash_seq(proof.siblings@));
}

/// Only the record of a Merkle proof reads as that proof.
pub proof fn law_proof_reading_is_exact(value: CborModel, proof: ProofView)
    requires
        proof_reading(value) == Some(proof),
    ensures
        value == proof_model(proof),
{
    let fields = record_fields(value, proof_names()).unwrap();
    law_fields_determine_record(value, proof_names());
    law_entry_reading_is_exact(fields[0].unwrap(), proof.leaf);
    lemma_bytes_value_unique(fields[1].unwrap());
    lemma_hashes_value_unique(fields[2].unwrap());
    assert(fields =~= proof_values(proof));
}

/// An attestation result as a mathematical value.
pub struct ResultView {
    pub vendor: Seq<char>,
    pub enclave_measurement: Seq<u8>,
    pub quote_verified: bool,
    pub verified_at: Timestamp,
    pub revoke_check: RevocationStatus,
    pub raw_quote: Option<Seq<u8>>,
    pub pck_chain: Option<Seq<char>>,
}

impl View for AttestationResult {
    type V = ResultView;

    open spec fn view(&self) -> ResultView {
        ResultView {
            vendor: self.vendor@,
            enclave_measurement: self.enclave_measurement@,
            quote_verified: self.quote_verified,
            verified_at: self.verified_at,
            revoke_check: self.revoke_check,
            raw_quote: optional_bytes_view(self.raw_quote),
            pck_chain: optional_view(self.pck_chain),
        }
    }
}

/// The lowercase token that stands for a revocation status in serialized records.
pub open spec fn status_token(status: RevocationStatus) -> Seq<char> {
    match status {
        RevocationStatus::Valid => "ok"@,
        RevocationStatus::Revoked => "revoked"@,
        RevocationStatus::Unknown => "unknown"@,
    }
}

/// The revocation status that a token stands for, if it stands for one.
pub open spec fn token_status(token: Seq<char>) -> Option<RevocationStatus> {
    if token == "ok"@ {
        Some(RevocationStatus::Valid)
    } else if token == "revoked"@ {
        Some(RevocationStatus::Revoked)
    } else if token == "unknown"@ {
        Some(RevocationStatus::Unknown)
    } else {
        None
    }
}

/// The token that stands for a revocation status in serialized records.
pub fn status_as_token(status: RevocationStatus) -> (token: &'static str)
    ensures
        token@ == status_token(status),
{
    match status {
        RevocationStatus::Valid => "ok",
        RevocationStatus::Revoked => "revoked",
        RevocationStatus::Unknown => "unknown",
    }
}

/// The revocation status that a token stands for, if it stands for one.
pub fn status_of_token(token: &str) -> (status: Option<RevocationStatus>)
    ensures
        status == token_status(token@),
{
    if same_text(token, "ok") {
        Some(RevocationStatus::Valid)
    } else if same_text(token, "revoked") {
        Some(RevocationStatus::Revoked)
    } else if same_text(token, "unknown") {
        Some(RevocationStatus::Unknown)
    } else {
        None
    }
}

/// The token of a revocation status stands for that status.
pub proof fn lemma_status_token_read_back(status: RevocationStatus)
    ensures
        token_status(status_token(status)) == Some(status),
{
    reveal_strlit("ok");
    reveal_strlit("revoked");
    reveal_strlit("unknown");
    assert("ok"@.len() == 2);
    assert("revoked"@.len() == 7);
    assert("unknown"@.len() == 7);
    assert("revoked"@[0] != "unknown"@[0]);
}

/// The field names of an attestation result record, in the order of their encodings.
pub open spec fn result_names() -> Seq<Seq<char>> {
    seq![
        "vendor"@,
        "pck_chain"@,
        "raw_quote"@,
        "verified_at"@,
        "revoke_check"@,
        "quote_verified"@,
        "enclave_measurement"@,
    ]
}

/// The field values of an attestation result record; an absent optional field has none.
pub open spec fn result_values(result: ResultView) -> Seq<Option<CborModel>> {
    seq![
        Some(CborModel::Text(result.vendor)),
        match result.pck_chain {
            Some(chain) => Some(CborModel::Text(chain)),
            None => None,
        },
        match result.raw_quote {
            Some(quote) => Some(bytes_model(quote)),
            None => None,
        },
        Some(CborModel::Text(timestamp_text(result.verified_at).unwrap())),
        Some(CborModel::Text(status_token(result.revoke_check))),
        Some(CborModel::Bool(result.quote_verified)),
        Some(bytes_model(result.enclave_measurement)),
    ]
}

/// The record that stands for an attestation result whose instant has a text form.
pub open spec fn result_model(result: ResultView) -> CborModel {
    record_model(result_names(), result_values(result))
}

/// The truth value of a field that must be present.
pub open spec fn required_bool(field: Option<CborModel>) -> Option<bool> {
    match field {
        Some(CborModel::Bool(b)) => Some(b),
        _ => None,
    }
}

/// The revocation status of a field that must be present.
pub open spec fn required_status(field: Option<CborModel>) -> Option<RevocationStatus> {
    match required_text(field) {
        Some(token) => token_status(token),
        None => None,
    }
}

/// The instant of a field that must be present.
pub open spec fn required_instant(field: Option<CborModel>) -> Option<Timestamp> {
    match required_text(field) {
        Some(text) => text_timestamp(text),
        None => None,
    }
}

/// The attestation result that a record value stands for, if it stands for one.
pub open spec fn result_reading(value: CborModel) -> Option<ResultView> {
    match record_fields(value, result_names()) {
        None => None,
        Some(fields) => {
            let vendor = required_text(fields[0]);
            let pck_chain = optional_text(fields[1]);
            let raw_quote = optional_bytes(fields[2]);
            let verified_at = required_instant(fields[3]);
            let revoke_check = required_status(fields[4]);
            let quote_verified = required_bool(fields[5]);
            let enclave_measurement = required_bytes(fields[6]);
            if vendor is Some && pck_chain is Some && raw_quote is Some && verified_at is Some
                && revoke_check is Some && quote_verified is Some && enclave_measurement
                is Some {
                Some(
                    ResultView {
                        vendor: vendor.unwrap(),
                        enclave_measurement: enclave_measurement.unwrap(),
                        quote_verified: quote_verified.unwrap(),
                        verified_at: verified_at.unwrap(),
                        revoke_check: revoke_check.unwrap(),
                        raw_quote: raw_quote.unwrap(),
                        pck_chain: pck_chain.unwrap(),
                    },
                )
            } else {
                None
            }
        },
    }
}

/// The field names of an attestation result record stand in the order of their encodings.
pub proof fn lemma_result_names_ranked()
    ensures
        names_ranked(result_names()),
{
    reveal_strlit("vendor");
    reveal_strlit("pck_chain");
    reveal_strlit("raw_quote");
    reveal_strlit("verified_at");
    reveal_strlit("revoke_check");
    reveal_strlit("quote_verified");
    reveal_strlit("enclave_measurement");
}

fn bool_of(field: Option<&CborValue>) -> (b: Option<bool>)
    ensures
        b == required_bool(field_model(field)),
{
    match field {
        Some(CborValue::Bool(b)) => Some(*b),
        _ => None,
    }
}

impl AttestationResult {
    /// The record that stands for this result; absent optional fields are left out. Fails
    /// for a result whose instant has no text form.
    pub fn to_value(&self) -> (result: Result<CborValue, SerializationError>)
        ensures
            timestamp_text(self.verified_at) is Some ==> result is Ok && result.unwrap()@
                == result_model(self@) && keys_sorted(result.unwrap()@),
            timestamp_text(self.verified_at) is None ==> result == Err::<
                CborValue,
                SerializationError,
            >(no_timestamp_text()),
    {
        let stamp = match self.verified_at.to_text() {
            Some(text) => text,
            None => {
                return Err(SerializationError::Encode(EncodeError::Timestamp));
            },
        };
        let ghost names = result_names();
        let ghost values = result_values(self@);
        let pck_chain = match &self.pck_chain {
            Some(chain) => Some(text_value(chain.as_str())),
            None => None,
        };
        let raw_quote = match &self.raw_quote {
            Some(quote) => Some(bytes_value(quote.as_slice())),
            None => None,
        };
        let mut entries: Vec<(CborValue, CborValue)> = Vec::new();
        assert(entry_models(entries@) =~= record_entries(names, values, 0));
        push_field(&mut entries, "vendor", Some(text_value(self.vendor.as_str())));
        assert(entry_models(entries@) == record_entries(names, values, 1));
        push_field(&mut entries, "pck_chain", pck_chain);
        assert(entry_models(entries@) == record_entries(names, values, 2));
        push_field(&mut entries, "raw_quote", raw_quote);
        assert(entry_models(entries@) == record_entries(names, values, 3));
        push_field(&mut entries, "verified_at", Some(CborValue::Text(stamp)));
        assert(entry_models(entries@) == record_entries(names, values, 4));
        push_field(
            &mut entries,
            "revoke_check",
            Some(text_value(status_as_token(self.revoke_check))),
        );
        assert(entry_models(entries@) == record_entries(names, values, 5));
        push_field(&mut entries, "quote_verified", Some(CborValue::Bool(self.quote_verified)));
        assert(entry_models(entries@) == record_entries(names, values, 6));
        push_field(
            &mut entries,
            "enclave_measurement",
            Some(bytes_value(self.enclave_measurement.as_slice())),
        );
        assert(entry_models(entries@) == record_entries(names, values, 7));
        proof {
            lemma_result_names_ranked();
            if self.raw_quote is Some {
                lemma_bytes_sorted(self.raw_quote.unwrap()@);
            }
            lemma_bytes_sorted(self.enclave_measurement@);
            lemma_record_sorted(names, values);
        }
        Ok(record_value(entries))
    }

    /// Read an attestation result from the record that stands for it.
    pub fn from_value(value: &CborValue) -> (result: Option<AttestationResult>)
        ensures
            result is Some <==> result_reading(value@) is Some,
            result is Some ==> result_reading(value@) == Some(result.unwrap()@),
    {
        let names: [&'static str; 7] = [
            "vendor",
            "pck_chain",
            "raw_quote",
            "verified_at",
            "revoke_check",
            "quote_verified",
            "enclave_measurement",
        ];
        assert(name_views(names@) =~= result_names());
        let fields = match read_fields(value, names.as_slice()) {
            Some(fields) => fields,
            None => {
                return None;
            },
        };
        let ghost read = field_models(fields@);
        assert forall|i: int| 0 <= i < 7 implies read[i] == field_model(fields@[i]) by {}
        let vendor = match read_text(fields[0]) {
            Some(text) => text,
            None => {
                return None;
            },
        };
        let pck_chain = match read_optional_text(fields[1]) {
            Some(text) => text,
            None => {
                return None;
            },
        };
        let raw_quote = match read_optional_bytes(fields[2]) {
            Some(bytes) => bytes,
            None => {
                return None;
            },
        };
        let verified_at = match read_text(fields[3]) {
            Some(text) => match Timestamp::from_text(text.as_str()) {
                Some(at) => at,
                None => {
                    return None;
                },
            },
            None => {
                return None;
            },
        };
        let revoke_check = match read_text(fields[4]) {
            Some(text) => match status_of_token(text.as_str()) {
                Some(status) => status,
                None => {
                    return None;
                },
            },
            None => {
                return None;
            },
        };
        let quote_verified = match bool_of(fields[5]) {
            Some(b) => b,
            None => {
                return None;
            },
        };
        let enclave_measurement = match read_bytes(fields[6]) {
            Some(bytes) => bytes,
            None => {
                return None;
            },
        };
        Some(
            AttestationResult {
                vendor,
                enclave_measurement,
                quote_verified,
                verified_at,
                revoke_check,
                raw_quote,
                pck_chain,
            },
        )
    }
}

/// An attestation result whose instant has a text form is read back from its record.
pub proof fn law_result_read_back(result: AttestationResult)
    requires
        timestamp_text(result.verified_at) is Some,
    ensures
        result_reading(result_model(result@)) == Some(result@),
{
    lemma_result_names_ranked();
    law_record_fields_read_back(result_names(), result_values(result@));
    if result.raw_quote is Some {
        lemma_bytes_read_back(result.raw_quote.unwrap()@);
    }
    lemma_bytes_read_back(result.enclave_measurement@);
    lemma_status_token_read_back(result.revoke_check);
}

/// Only the record of an attestation result reads as that result.
pub proof fn law_result_reading_is_exact(value: CborModel, result: ResultView)
    requires
        result_reading(value) == Some(result),
    ensures
        timestamp_text(result.verified_at) is Some,
        value == result_model(result),
{
    let fields = record_fields(value, result_names()).unwrap();
    law_fields_determine_record(value, result_names());
    if fields[2] is Some {
        lemma_bytes_value_unique(fields[2].unwrap());
    }
    lemma_bytes_value_unique(fields[6].unwrap());
    let wanted = result_values(result);
    assert(fields[0] == wanted[0]);
    assert(fields[1] == wanted[1]);
    assert(fields[2] == wanted[2]);
    assert(fields[3] == wanted[3]);
    assert(fields[4] == wanted[4]);
    assert(fields[5] == wanted[5]);
    assert(fields[6] == wanted[6]);
    assert(fields =~= wanted);
}

} // verus!
