//! The canonical encoding profile: the value model, the bytes each value encodes to, and the
//! strict reading of bytes back into values.
//!
//! The profile is the deterministic subset of CBOR that the checkpoint records need:
//! unsigned integers, byte strings, text strings, arrays, maps and booleans, with
//! minimal-length heads, definite lengths only, and map keys in strictly increasing order of
//! their encoded bytes.

use vstd::prelude::*;
use vstd::utf8::*;

verus! {

/// A value of the canonical data model.
#[derive(Debug)]
pub enum CborValue {
    Unsigned(u64),
    Bytes(Vec<u8>),
    Text(String),
    Array(Vec<CborValue>),
    Mapping(Vec<(CborValue, CborValue)>),
    Bool(bool),
}

/// The mathematical value that a `CborValue` stands for.
pub enum CborModel {
    Unsigned(u64),
    Bytes(Seq<u8>),
    Text(Seq<char>),
    Array(Seq<CborModel>),
    Mapping(Seq<(CborModel, CborModel)>),
    Bool(bool),
}

impl View for CborValue {
    type V = CborModel;

    open spec fn view(&self) -> CborModel {
        model_of(*self)
    }
}

/// The model of a value: the same tree, with sequences for vectors and strings.
pub open spec fn model_of(value: CborValue) -> CborModel
    decreases value, 0nat,
{
    match value {
        CborValue::Unsigned(n) => CborModel::Unsigned(n),
        CborValue::Bytes(bytes) => CborModel::Bytes(bytes@),
        CborValue::Text(text) => CborModel::Text(text@),
        CborValue::Array(items) => CborModel::Array(models_upto(items@, items@.len())),
        CborValue::Mapping(entries) => CborModel::Mapping(
            entry_models_upto(entries@, entries@.len()),
        ),
        CborValue::Bool(b) => CborModel::Bool(b),
    }
}

/// The models of the first `count` items.
pub open spec fn models_upto(items: Seq<CborValue>, count: nat) -> Seq<CborModel>
    decreases items, count,
{
    if count == 0 || count > items.len() {
        Seq::empty()
    } else {
        models_upto(items, (count - 1) as nat).push(model_of(items[count - 1]))
    }
}

/// The models of the first `count` entries.
pub open spec fn entry_models_upto(entries: Seq<(CborValue, CborValue)>, count: nat) -> Seq<
    (CborModel, CborModel),
>
    decreases entries, count,
{
    if count == 0 || count > entries.len() {
        Seq::empty()
    } else {
        entry_models_upto(entries, (count - 1) as nat).push(
            (model_of(entries[count - 1].0), model_of(entries[count - 1].1)),
        )
    }
}

/// The models of a sequence of values.
pub open spec fn models(items: Seq<CborValue>) -> Seq<CborModel> {
    Seq::new(items.len(), |i: int| items[i]@)
}

/// The models of a sequence of entries.
pub open spec fn entry_models(entries: Seq<(CborValue, CborValue)>) -> Seq<(CborModel, CborModel)> {
    Seq::new(entries.len(), |i: int| (entries[i].0@, entries[i].1@))
}

/// `models_upto` lists the models of the items, in order.
pub proof fn lemma_models_upto(items: Seq<CborValue>, count: nat)
    requires
        count <= items.len(),
    ensures
        models_upto(items, count) == models(items.take(count as int)),
    decreases count,
{
    if count > 0 {
        lemma_models_upto(items, (count - 1) as nat);
    }
    assert(models_upto(items, count) =~= models(items.take(count as int)));
}

/// `entry_models_upto` lists the models of the entries, in order.
pub proof fn lemma_entry_models_upto(entries: Seq<(CborValue, CborValue)>, count: nat)
    requires
        count <= entries.len(),
    ensures
        entry_models_upto(entries, count) == entry_models(entries.take(count as int)),
    decreases count,
{
    if count > 0 {
        lemma_entry_models_upto(entries, (count - 1) as nat);
    }
    assert(entry_models_upto(entries, count) =~= entry_models(entries.take(count as int)));
}

/// The model of an array is the array of its items' models.
pub proof fn lemma_array_model(items: Vec<CborValue>)
    ensures
        CborValue::Array(items)@ == CborModel::Array(models(items@)),
{
    lemma_models_upto(items@, items@.len());
    assert(items@.take(items@.len() as int) =~= items@);
}

/// The model of a map is the sequence of its entries' models.
pub proof fn lemma_mapping_model(entries: Vec<(CborValue, CborValue)>)
    ensures
        CborValue::Mapping(entries)@ == CborModel::Mapping(entry_models(entries@)),
{
    lemma_entry_models_upto(entries@, entries@.len());
    assert(entries@.take(entries@.len() as int) =~= entries@);
}

/// A rule of the canonical profile that a byte sequence breaks.
#[derive(Debug, Clone, Copy, PartialEq, Eq, Structural)]
pub enum CanonicalityViolation {
    /// An item announces an indefinite length (additional information 31).
    IndefiniteLength,
    /// An integer or a length is written in more bytes than it needs.
    NonMinimalInt,
    /// A map key does not sort strictly after the key before it.
    UnsortedMapKey,
}

/// Why bytes cannot be read as a value.
#[derive(Debug, Clone, Copy, PartialEq, Eq, Structural)]
pub enum DecodeError {
    /// The bytes end early, go on after the value, hold a type outside the data model, or hold
    /// text that is not UTF-8.
    Malformed,
}

/// Why a value cannot be written.
#[derive(Debug, Clone, Copy, PartialEq, Eq, Structural)]
pub enum EncodeError {
    /// A field holds an instant that has no text form.
    Timestamp,
}

/// Why a value cannot be written or bytes cannot be read.
#[derive(Debug, Clone, Copy, PartialEq, Eq, Structural)]
pub enum SerializationError {
    Encode(EncodeError),
    Decode(DecodeError),
    Canonical(CanonicalityViolation),
}

/// The error for bytes that are no value of the data model.
pub open spec fn malformed() -> SerializationError {
    SerializationError::Decode(DecodeError::Malformed)
}

/// The error for a broken rule of the profile.
pub open spec fn violation(rule: CanonicalityViolation) -> SerializationError {
    SerializationError::Canonical(rule)
}

pub const MAJOR_UNSIGNED: u8 = 0;

pub const MAJOR_BYTES: u8 = 2;

pub const MAJOR_TEXT: u8 = 3;

pub const MAJOR_ARRAY: u8 = 4;

pub const MAJOR_MAP: u8 = 5;

pub const MAJOR_SIMPLE: u8 = 7;

/// The initial byte of the simple value `false`; `true` is the next one.
pub const SIMPLE_FALSE: u8 = 0xf4;

pub const SIMPLE_TRUE: u8 = 0xf5;

/// Additional information that announces an indefinite length.
pub const INFO_INDEFINITE: u8 = 31;

/// 256 to the power `k`.
pub open spec fn pow256(k: nat) -> nat
    decreases k,
{
    if k == 0 {
        1
    } else {
        256 * pow256((k - 1) as nat)
    }
}

/// `n` as `width` bytes, most significant first.
pub open spec fn be_bytes(n: nat, width: nat) -> Seq<u8>
    decreases width,
{
    if width == 0 {
        Seq::empty()
    } else {
        be_bytes(n / 256, (width - 1) as nat).push((n % 256) as u8)
    }
}

/// The number that `bytes` hold, most significant byte first.
pub open spec fn be_value(bytes: Seq<u8>) -> nat
    decreases bytes.len(),
{
    if bytes.len() == 0 {
        0
    } else {
        be_value(bytes.drop_last()) * 256 + bytes.last() as nat
    }
}

/// How many bytes follow the initial byte of a head with argument `n`.
pub open spec fn head_extra(n: nat) -> nat {
    if n < 24 {
        0
    } else if n < 0x100 {
        1
    } else if n < 0x1_0000 {
        2
    } else if n < 0x1_0000_0000 {
        4
    } else {
        8
    }
}

/// The additional information in the initial byte of a head with argument `n`.
pub open spec fn head_info(n: nat) -> nat {
    if n < 24 {
        n
    } else if n < 0x100 {
        24
    } else if n < 0x1_0000 {
        25
    } else if n < 0x1_0000_0000 {
        26
    } else {
        27
    }
}

/// The head of an item: major type and argument, in the shortest form.
pub open spec fn head(major: u8, n: nat) -> Seq<u8> {
    seq![(major * 32 + head_info(n)) as u8] + be_bytes(n, head_extra(n))
}

/// Lexicographic order on byte strings; a proper prefix sorts first.
pub open spec fn lex_lt(a: Seq<u8>, b: Seq<u8>) -> bool
    decreases a.len(),
{
    if b.len() == 0 {
        false
    } else if a.len() == 0 {
        true
    } else if a[0] != b[0] {
        a[0] < b[0]
    } else {
        lex_lt(a.skip(1), b.skip(1))
    }
}

/// The canonical encoding of a value.
pub open spec fn encoding(value: CborModel) -> Seq<u8>
    decreases value, 0nat,
{
    match value {
        CborModel::Unsigned(n) => head(MAJOR_UNSIGNED, n as nat),
        CborModel::Bytes(bytes) => head(MAJOR_BYTES, bytes.len()) + bytes,
        CborModel::Text(text) => head(MAJOR_TEXT, encode_utf8(text).len()) + encode_utf8(text),
        CborModel::Array(items) => head(MAJOR_ARRAY, items.len()) + encoding_items(
            items,
            items.len(),
        ),
        CborModel::Mapping(entries) => head(MAJOR_MAP, entries.len()) + encoding_entries(
            entries,
            entries.len(),
        ),
        CborModel::Bool(b) => if b {
            seq![SIMPLE_TRUE]
        } else {
            seq![SIMPLE_FALSE]
        },
    }
}

/// The encodings of the first `count` items, one after the other.
pub open spec fn encoding_items(items: Seq<CborModel>, count: nat) -> Seq<u8>
    decreases items, count,
{
    if count == 0 || count > items.len() {
        Seq::empty()
    } else {
        encoding_items(items, (count - 1) as nat) + encoding(items[count - 1])
    }
}

/// The encodings of the first `count` entries: each key, then its value.
pub open spec fn encoding_entries(entries: Seq<(CborModel, CborModel)>, count: nat) -> Seq<u8>
    decreases entries, count,
{
    if count == 0 || count > entries.len() {
        Seq::empty()
    } else {
        encoding_entries(entries, (count - 1) as nat) + encoding(entries[count - 1].0) + encoding(
            entries[count - 1].1,
        )
    }
}

/// Whether every length in `value` fits the 64-bit argument of a head.
pub open spec fn sizes_fit(value: CborModel) -> bool
    decreases value,
{
    match value {
        CborModel::Unsigned(_) => true,
        CborModel::Bytes(bytes) => bytes.len() <= u64::MAX,
        CborModel::Text(text) => encode_utf8(text).len() <= u64::MAX,
        CborModel::Array(items) => items.len() <= u64::MAX && forall|i: int|
            0 <= i < items.len() ==> sizes_fit(#[trigger] items[i]),
        CborModel::Mapping(entries) => entries.len() <= u64::MAX && forall|i: int|
            0 <= i < entries.len() ==> sizes_fit((#[trigger] entries[i]).0) && sizes_fit(
                entries[i].1,
            ),
        CborModel::Bool(_) => true,
    }
}

/// Whether the keys of every map in `value` stand in strictly increasing order of their
/// encodings. Strictness rules out a key that occurs twice.
pub open spec fn keys_sorted(value: CborModel) -> bool
    decreases value,
{
    match value {
        CborModel::Array(items) => forall|i: int|
            0 <= i < items.len() ==> keys_sorted(#[trigger] items[i]),
        CborModel::Mapping(entries) => {
            &&& forall|i: int|
                0 <= i < entries.len() ==> keys_sorted((#[trigger] entries[i]).0) && keys_sorted(
                    entries[i].1,
                )
            &&& forall|i: int|
                0 < i < entries.len() ==> lex_lt(
                    encoding(entries[i - 1].0),
                    encoding((#[trigger] entries[i]).0),
                )
        },
        _ => true,
    }
}

/// Whether `value` has a canonical encoding.
pub open spec fn canonical(value: CborModel) -> bool {
    sizes_fit(value) && keys_sorted(value)
}

/// What reading the head of an item at `pos` gives: major type, argument, and the position
/// after the head.
pub open spec fn decode_head(bytes: Seq<u8>, pos: int) -> Result<(u8, nat, int), SerializationError> {
    if pos < 0 || pos >= bytes.len() {
        Err(malformed())
    } else {
        let major = bytes[pos] / 32;
        let info = (bytes[pos] % 32) as nat;
        if info == INFO_INDEFINITE {
            Err(violation(CanonicalityViolation::IndefiniteLength))
        } else if info < 24 {
            Ok((major, info, pos + 1))
        } else if info > 27 {
            Err(malformed())
        } else {
            let extra: nat = if info == 24 {
                1
            } else if info == 25 {
                2
            } else if info == 26 {
                4
            } else {
                8
            };
            if pos + 1 + extra > bytes.len() {
                Err(malformed())
            } else {
                let n = be_value(bytes.subrange(pos + 1, pos + 1 + extra));
                if head_extra(n) != extra {
                    Err(violation(CanonicalityViolation::NonMinimalInt))
                } else {
                    Ok((major, n, pos + 1 + extra))
                }
            }
        }
    }
}

/// What reading one item at `pos` gives: the value and the position after it, or the first
/// fault met on the way. Of the simple values only `false` and `true` belong to the data
/// model; floating-point numbers do not. Negative integers and tags do not either.
pub open spec fn decode_item(bytes: Seq<u8>, pos: int) -> Result<(CborModel, int), SerializationError>
    decreases bytes.len() - pos, 0nat,
{
    if 0 <= pos < bytes.len() && bytes[pos] == SIMPLE_FALSE {
        Ok((CborModel::Bool(false), pos + 1))
    } else if 0 <= pos < bytes.len() && bytes[pos] == SIMPLE_TRUE {
        Ok((CborModel::Bool(true), pos + 1))
    } else if 0 <= pos < bytes.len() && bytes[pos] / 32 == MAJOR_SIMPLE && bytes[pos] % 32
        != INFO_INDEFINITE {
        Err(malformed())
    } else {
        match decode_head(bytes, pos) {
            Err(error) => Err(error),
            Ok((major, n, after)) => {
                if after <= pos || after > bytes.len() {
                    Err(malformed())
                } else if major == MAJOR_UNSIGNED {
                    Ok((CborModel::Unsigned(n as u64), after))
                } else if major == MAJOR_BYTES {
                    if after + n > bytes.len() {
                        Err(malformed())
                    } else {
                        Ok((CborModel::Bytes(bytes.subrange(after, after + n)), after + n))
                    }
                } else if major == MAJOR_TEXT {
                    if after + n > bytes.len() {
                        Err(malformed())
                    } else if !valid_utf8(bytes.subrange(after, after + n)) {
                        Err(malformed())
                    } else {
                        Ok((CborModel::Text(decode_utf8(bytes.subrange(after, after + n))), after + n))
                    }
                } else if major == MAJOR_ARRAY {
                    match decode_items(bytes, after, n) {
                        Err(error) => Err(error),
                        Ok((items, end)) => Ok((CborModel::Array(items), end)),
                    }
                } else if major == MAJOR_MAP {
                    match decode_entries(bytes, after, n) {
                        Err(error) => Err(error),
                        Ok((entries, end, _, _)) => Ok((CborModel::Mapping(entries), end)),
                    }
                } else {
                    Err(malformed())
                }
            },
        }
    }
}

/// What reading `count` items in a row from `pos` gives.
pub open spec fn decode_items(bytes: Seq<u8>, pos: int, count: nat) -> Result<
    (Seq<CborModel>, int),
    SerializationError,
>
    decreases bytes.len() - pos, count + 1,
{
    if count == 0 {
        Ok((Seq::empty(), pos))
    } else {
        match decode_items(bytes, pos, (count - 1) as nat) {
            Err(error) => Err(error),
            Ok((items, mid)) => {
                if mid < pos || mid > bytes.len() {
                    Err(malformed())
                } else {
                    match decode_item(bytes, mid) {
                        Err(error) => Err(error),
                        Ok((last, end)) => Ok((items.push(last), end)),
                    }
                }
            },
        }
    }
}

/// What reading `count` map entries in a row from `pos` gives: the entries, the position after
/// them, and where the last key starts and ends. Each key must sort strictly after the key
/// before it, by the bytes that encode them.
pub open spec fn decode_entries(bytes: Seq<u8>, pos: int, count: nat) -> Result<
    (Seq<(CborModel, CborModel)>, int, int, int),
    SerializationError,
>
    decreases bytes.len() - pos, count + 1,
{
    if count == 0 {
        Ok((Seq::empty(), pos, pos, pos))
    } else {
        match decode_entries(bytes, pos, (count - 1) as nat) {
            Err(error) => Err(error),
            Ok((entries, mid, last_start, last_end)) => {
                if mid < pos || mid > bytes.len() {
                    Err(malformed())
                } else {
                    match decode_item(bytes, mid) {
                        Err(error) => Err(error),
                        Ok((key, key_end)) => {
                            if key_end < mid || key_end > bytes.len() {
                                Err(malformed())
                            } else if count > 1 && !lex_lt(
                                bytes.subrange(last_start, last_end),
                                bytes.subrange(mid, key_end),
                            ) {
                                Err(violation(CanonicalityViolation::UnsortedMapKey))
                            } else {
                                match decode_item(bytes, key_end) {
                                    Err(error) => Err(error),
                                    Ok((value, end)) => Ok(
                                        (entries.push((key, value)), end, mid, key_end),
                                    ),
                                }
                            }
                        },
                    }
                }
            },
        }
    }
}

/// What reading `bytes` as exactly one value gives: nothing may follow the value.
pub open spec fn decoding(bytes: Seq<u8>) -> Result<CborModel, SerializationError> {
    match decode_item(bytes, 0) {
        Err(error) => Err(error),
        Ok((value, end)) => if end == bytes.len() {
            Ok(value)
        } else {
            Err(malformed())
        },
    }
}

} // verus!
