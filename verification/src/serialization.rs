//! Canonical serialization for deterministic hashing.
//!
//! Every record serializes to one byte sequence, so that Merkle roots and signatures can be
//! reproduced by any implementation of the profile.

use crate::cbor::{
    be_bytes, be_value, canonical, decode_entries, decode_head, decode_item, decode_items,
    decoding, encoding, encoding_entries, encoding_items, entry_models, head, keys_sorted,
    lemma_array_model, lemma_mapping_model, lex_lt, models, sizes_fit, CborModel, CborValue,
    INFO_INDEFINITE, MAJOR_ARRAY, MAJOR_BYTES, MAJOR_MAP, MAJOR_SIMPLE, MAJOR_TEXT,
    MAJOR_UNSIGNED, SIMPLE_FALSE, SIMPLE_TRUE,
};
pub use crate::cbor::{CanonicalityViolation, DecodeError, EncodeError, SerializationError};
use crate::cbor_laws::{
    lemma_be_value_bound, lemma_decode_encoding, lemma_decode_entries_error,
    lemma_decode_items_error, lemma_pow256_values, unsorted,
};
use vstd::prelude::*;
use vstd::utf8::*;

verus! {

fn append_bytes(out: &mut Vec<u8>, bytes: &[u8])
    ensures
        final(out)@ == old(out)@ + bytes@,
{
    let ghost before = out@;
    let mut i: usize = 0;
    while i < bytes.len()
        invariant
            i <= bytes.len(),
            out@ == before + bytes@.subrange(0, i as int),
        decreases bytes.len() - i,
    {
        out.push(bytes[i]);
        i += 1;
        assert(out@ =~= before + bytes@.subrange(0, i as int));
    }
    assert(bytes@.subrange(0, bytes@.len() as int) =~= bytes@);
}

/// Append `n` as `width` bytes, most significant first.
pub fn push_be(n: u64, width: usize, out: &mut Vec<u8>)
    ensures
        final(out)@ == old(out)@ + be_bytes(n as nat, width as nat),
    decreases width,
{
    if width > 0 {
        let ghost before = out@;
        push_be(n / 256, width - 1, out);
        out.push((n % 256) as u8);
        assert(out@ =~= before + be_bytes(n as nat, width as nat));
    } else {
        assert(out@ =~= out@ + be_bytes(n as nat, 0));
    }
}

fn push_head(major: u8, n: u64, out: &mut Vec<u8>)
    requires
        major < 8,
    ensures
        final(out)@ == old(out)@ + head(major, n as nat),
{
    let ghost before = out@;
    if n < 24 {
        out.push(major * 32 + n as u8);
        assert(be_bytes(n as nat, 0) =~= Seq::empty());
    } else if n < 0x100 {
        out.push(major * 32 + 24);
        push_be(n, 1, out);
    } else if n < 0x1_0000 {
        out.push(major * 32 + 25);
        push_be(n, 2, out);
    } else if n < 0x1_0000_0000 {
        out.push(major * 32 + 26);
        push_be(n, 4, out);
    } else {
        out.push(major * 32 + 27);
        push_be(n, 8, out);
    }
    assert(out@ =~= before + head(major, n as nat));
}

/// Append the encoding of `value` to `out`.
pub fn encode_into(value: &CborValue, out: &mut Vec<u8>)
    ensures
        final(out)@ == old(out)@ + encoding(value@),
        sizes_fit(value@),
    decreases value,
{
    let ghost before = out@;
    match value {
        CborValue::Unsigned(n) => {
            push_head(MAJOR_UNSIGNED, *n, out);
        },
        CborValue::Bytes(bytes) => {
            push_head(MAJOR_BYTES, bytes.len() as u64, out);
            append_bytes(out, bytes.as_slice());
            assert(out@ =~= before + encoding(value@));
        },
        CborValue::Text(text) => {
            let bytes = text.as_str().as_bytes();
            push_head(MAJOR_TEXT, bytes.len() as u64, out);
            append_bytes(out, bytes);
            assert(out@ =~= before + encoding(value@));
        },
        CborValue::Array(items) => {
            proof {
                lemma_array_model(*items);
            }
            let ghost all = models(items@);
            push_head(MAJOR_ARRAY, items.len() as u64, out);
            let mut i: usize = 0;
            while i < items.len()
                invariant
                    i <= items.len(),
                    all == models(items@),
                    value == CborValue::Array(*items),
                    out@ == before + head(MAJOR_ARRAY, items@.len()) + encoding_items(all, i as nat),
                    forall|j: int| 0 <= j < i ==> sizes_fit(#[trigger] all[j]),
                decreases items.len() - i,
            {
                assert(decreases_to!(value => value->Array_0[i as int]));
                encode_into(&items[i], out);
                i += 1;
                assert(out@ =~= before + head(MAJOR_ARRAY, items@.len()) + encoding_items(
                    all,
                    i as nat,
                ));
            }
            assert(out@ =~= before + encoding(value@));
        },
        CborValue::Mapping(entries) => {
            proof {
                lemma_mapping_model(*entries);
            }
            let ghost all = entry_models(entries@);
            push_head(MAJOR_MAP, entries.len() as u64, out);
            let mut i: usize = 0;
            while i < entries.len()
                invariant
                    i <= entries.len(),
                    all == entry_models(entries@),
                    value == CborValue::Mapping(*entries),
                    out@ == before + head(MAJOR_MAP, entries@.len()) + encoding_entries(
                        all,
                        i as nat,
                    ),
                    forall|j: int|
                        0 <= j < i ==> sizes_fit((#[trigger] all[j]).0) && sizes_fit(all[j].1),
                decreases entries.len() - i,
            {
                assert(decreases_to!(value => value->Mapping_0[i as int].0));
                assert(decreases_to!(value => value->Mapping_0[i as int].1));
                encode_into(&entries[i].0, out);
                encode_into(&entries[i].1, out);
                i += 1;
                assert(out@ =~= before + head(MAJOR_MAP, entries@.len()) + encoding_entries(
                    all,
                    i as nat,
                ));
            }
            assert(out@ =~= before + encoding(value@));
        },
        CborValue::Bool(b) => {
            if *b {
                out.push(SIMPLE_TRUE);
            } else {
                out.push(SIMPLE_FALSE);
            }
            assert(out@ =~= before + encoding(value@));
        },
    }
}

/// Trusted: `core::str::from_utf8`, which accepts exactly the byte strings that are UTF-8 and
/// then gives the text they spell.
#[verifier::external_body]
pub(crate) fn str_from_utf8(bytes: &[u8]) -> (text: Option<&str>)
    ensures
        text is Some <==> valid_utf8(bytes@),
        text is Some ==> text.unwrap()@ == decode_utf8(bytes@),
{
    core::str::from_utf8(bytes).ok()
}

pub(crate) fn read_be(bytes: &[u8], pos: usize, width: usize) -> (value: u64)
    requires
        width <= 8,
        pos + width <= bytes.len(),
    ensures
        value == be_value(bytes@.subrange(pos as int, pos + width)),
{
    let mut acc: u64 = 0;
    let mut i: usize = 0;
    while i < width
        invariant
            i <= width <= 8,
            pos + width <= bytes.len(),
            acc == be_value(bytes@.subrange(pos as int, pos + i)),
        decreases width - i,
    {
        proof {
            let read = bytes@.subrange(pos as int, pos + i);
            let next = bytes@.subrange(pos as int, pos + i + 1);
            lemma_be_value_bound(read);
            lemma_pow256_values();
            assert(next.drop_last() =~= read);
        }
        acc = acc * 256 + bytes[pos + i] as u64;
        i += 1;
    }
    acc
}

/// What `read_head` returns, as the result of `decode_head`.
pub open spec fn head_read(result: Result<(u8, u64, usize), SerializationError>) -> Result<
    (u8, nat, int),
    SerializationError,
> {
    match result {
        Ok((major, n, after)) => Ok((major, n as nat, after as int)),
        Err(error) => Err(error),
    }
}

fn read_head(bytes: &[u8], pos: usize) -> (result: Result<(u8, u64, usize), SerializationError>)
    requires
        pos <= bytes.len(),
    ensures
        head_read(result) == decode_head(bytes@, pos as int),
        result matches Ok((_, _, after)) ==> pos < after <= bytes.len(),
{
    if pos >= bytes.len() {
        return Err(SerializationError::Decode(DecodeError::Malformed));
    }
    let major = bytes[pos] / 32;
    let info = bytes[pos] % 32;
    if info == INFO_INDEFINITE {
        return Err(SerializationError::Canonical(CanonicalityViolation::IndefiniteLength));
    }
    if info < 24 {
        return Ok((major, info as u64, pos + 1));
    }
    if info > 27 {
        return Err(SerializationError::Decode(DecodeError::Malformed));
    }
    let extra: usize = if info == 24 {
        1
    } else if info == 25 {
        2
    } else if info == 26 {
        4
    } else {
        8
    };
    if extra > bytes.len() - pos - 1 {
        return Err(SerializationError::Decode(DecodeError::Malformed));
    }
    let n = read_be(bytes, pos + 1, extra);
    let minimal = if extra == 1 {
        n >= 24
    } else if extra == 2 {
        n >= 0x100
    } else if extra == 4 {
        n >= 0x1_0000
    } else {
        n >= 0x1_0000_0000
    };
    proof {
        lemma_be_value_bound(bytes@.subrange(pos + 1, pos + 1 + extra));
        lemma_pow256_values();
    }
    if !minimal {
        return Err(SerializationError::Canonical(CanonicalityViolation::NonMinimalInt));
    }
    Ok((major, n, pos + 1 + extra))
}

/// Whether the bytes from `a_start` to `a_end` sort strictly before those from `b_start` to
/// `b_end`.
fn range_lt(bytes: &[u8], a_start: usize, a_end: usize, b_start: usize, b_end: usize) -> (less: bool)
    requires
        a_start <= a_end <= bytes.len(),
        b_start <= b_end <= bytes.len(),
    ensures
        less == lex_lt(
            bytes@.subrange(a_start as int, a_end as int),
            bytes@.subrange(b_start as int, b_end as int),
        ),
{
    let ghost a = bytes@.subrange(a_start as int, a_end as int);
    let ghost b = bytes@.subrange(b_start as int, b_end as int);
    let mut i: usize = 0;
    assert(a.skip(0) =~= a && b.skip(0) =~= b);
    loop
        invariant
            a_start <= a_end <= bytes.len(),
            b_start <= b_end <= bytes.len(),
            a == bytes@.subrange(a_start as int, a_end as int),
            b == bytes@.subrange(b_start as int, b_end as int),
            i <= a.len(),
            i <= b.len(),
            lex_lt(a, b) == lex_lt(a.skip(i as int), b.skip(i as int)),
        decreases a.len() - i,
    {
        if i >= b_end - b_start {
            return false;
        }
        if i >= a_end - a_start {
            return true;
        }
        let x = bytes[a_start + i];
        let y = bytes[b_start + i];
        if x != y {
            return x < y;
        }
        proof {
            assert(a.skip(i as int).skip(1) =~= a.skip(i + 1));
            assert(b.skip(i as int).skip(1) =~= b.skip(i + 1));
        }
        i += 1;
    }
}

/// What a reading function returns, as the result of the reading it implements.
pub open spec fn item_read(result: Result<(CborValue, usize), SerializationError>) -> Result<
    (CborModel, int),
    SerializationError,
> {
    match result {
        Ok((value, end)) => Ok((value@, end as int)),
        Err(error) => Err(error),
    }
}

/// Read one item at `pos`: its value and the position after it, or the first fault met.
#[verifier::loop_isolation(false)]
pub fn decode_item_at(bytes: &[u8], pos: usize) -> (result: Result<
    (CborValue, usize),
    SerializationError,
>)
    requires
        pos <= bytes.len(),
    ensures
        item_read(result) == decode_item(bytes@, pos as int),
        result matches Ok((_, end)) ==> pos < end <= bytes.len(),
    decreases bytes.len() - pos,
{
    if pos < bytes.len() && bytes[pos] == SIMPLE_FALSE {
        return Ok((CborValue::Bool(false), pos + 1));
    }
    if pos < bytes.len() && bytes[pos] == SIMPLE_TRUE {
        return Ok((CborValue::Bool(true), pos + 1));
    }
    if pos < bytes.len() && bytes[pos] / 32 == MAJOR_SIMPLE && bytes[pos] % 32 != INFO_INDEFINITE {
        return Err(SerializationError::Decode(DecodeError::Malformed));
    }
    let (major, n, after) = match read_head(bytes, pos) {
        Ok(head) => head,
        Err(error) => {
            return Err(error);
        },
    };
    if major == MAJOR_UNSIGNED {
        Ok((CborValue::Unsigned(n), after))
    } else if major == MAJOR_BYTES {
        if n > (bytes.len() - after) as u64 {
            return Err(SerializationError::Decode(DecodeError::Malformed));
        }
        let end = after + n as usize;
        let content = vstd::slice::slice_to_vec(vstd::slice::slice_subrange(bytes, after, end));
        Ok((CborValue::Bytes(content), end))
    } else if major == MAJOR_TEXT {
        if n > (bytes.len() - after) as u64 {
            return Err(SerializationError::Decode(DecodeError::Malformed));
        }
        let end = after + n as usize;
        match str_from_utf8(vstd::slice::slice_subrange(bytes, after, end)) {
            None => Err(SerializationError::Decode(DecodeError::Malformed)),
            Some(text) => Ok((CborValue::Text(text.to_owned()), end)),
        }
    } else if major == MAJOR_ARRAY {
        let mut items: Vec<CborValue> = Vec::new();
        let mut cur = after;
        let mut i: u64 = 0;
        assert(models(items@) =~= Seq::<CborModel>::empty());
        while i < n
            invariant
                pos < after <= cur <= bytes.len(),
                i <= n,
                decode_items(bytes@, after as int, i as nat) == Ok::<
                    (Seq<CborModel>, int),
                    SerializationError,
                >((models(items@), cur as int)),
            decreases n - i,
        {
            match decode_item_at(bytes, cur) {
                Err(error) => {
                    proof {
                        lemma_decode_items_error(bytes@, after as int, (i + 1) as nat, n as nat);
                    }
                    return Err(error);
                },
                Ok((item, end)) => {
                    let ghost before = models(items@);
                    items.push(item);
                    assert(models(items@) =~= before.push(item@));
                    cur = end;
                    i += 1;
                },
            }
        }
        proof {
            lemma_array_model(items);
        }
        Ok((CborValue::Array(items), cur))
    } else if major == MAJOR_MAP {
        let mut entries: Vec<(CborValue, CborValue)> = Vec::new();
        let mut cur = after;
        let mut last_start = after;
        let mut last_end = after;
        let mut i: u64 = 0;
        assert(entry_models(entries@) =~= Seq::<(CborModel, CborModel)>::empty());
        while i < n
            invariant
                pos < after <= cur <= bytes.len(),
                after <= last_start <= last_end <= bytes.len(),
                i <= n,
                decode_entries(bytes@, after as int, i as nat) == Ok::<
                    (Seq<(CborModel, CborModel)>, int, int, int),
                    SerializationError,
                >((entry_models(entries@), cur as int, last_start as int, last_end as int)),
            decreases n - i,
        {
            let (key, key_end) = match decode_item_at(bytes, cur) {
                Ok(read) => read,
                Err(error) => {
                    proof {
                        lemma_decode_entries_error(bytes@, after as int, (i + 1) as nat, n as nat);
                    }
                    return Err(error);
                },
            };
            if i > 0 && !range_lt(bytes, last_start, last_end, cur, key_end) {
                proof {
                    lemma_decode_entries_error(bytes@, after as int, (i + 1) as nat, n as nat);
                }
                return Err(SerializationError::Canonical(CanonicalityViolation::UnsortedMapKey));
            }
            let (value, end) = match decode_item_at(bytes, key_end) {
                Ok(read) => read,
                Err(error) => {
                    proof {
                        lemma_decode_entries_error(bytes@, after as int, (i + 1) as nat, n as nat);
                    }
                    return Err(error);
                },
            };
            let ghost before = entry_models(entries@);
            let ghost entry = (key@, value@);
            entries.push((key, value));
            assert(entry_models(entries@) =~= before.push(entry));
            last_start = cur;
            last_end = key_end;
            cur = end;
            i += 1;
        }
        proof {
            lemma_mapping_model(entries);
        }
        Ok((CborValue::Mapping(entries), cur))
    } else {
        Err(SerializationError::Decode(DecodeError::Malformed))
    }
}

/// Deserialize a value from canonical bytes.
///
/// Succeeds exactly on a byte sequence that is one complete item of the profile, and returns
/// the value it encodes; otherwise returns the first fault met when reading from the start.
pub fn from_canonical_cbor(bytes: &[u8]) -> (result: Result<CborValue, SerializationError>)
    ensures
        match result {
            Ok(value) => decoding(bytes@) == Ok::<CborModel, SerializationError>(value@),
            Err(error) => decoding(bytes@) == Err::<CborModel, SerializationError>(error),
        },
{
    match decode_item_at(bytes, 0) {
        Err(error) => Err(error),
        Ok((value, end)) => {
            if end == bytes.len() {
                Ok(value)
            } else {
                Err(SerializationError::Decode(DecodeError::Malformed))
            }
        },
    }
}

/// The position after the item, of a reading that gives an item and that position.
pub open spec fn end_of<T>(read: Result<(T, int), SerializationError>) -> Result<
    int,
    SerializationError,
> {
    match read {
        Ok((_, end)) => Ok(end),
        Err(error) => Err(error),
    }
}

/// The position after the entries, of a reading of map entries.
pub open spec fn entries_end_of(
    read: Result<(Seq<(CborModel, CborModel)>, int, int, int), SerializationError>,
) -> Result<(int, int, int), SerializationError> {
    match read {
        Ok((_, end, last_start, last_end)) => Ok((end, last_start, last_end)),
        Err(error) => Err(error),
    }
}

/// What a scanning function returns, as a result over mathematical positions.
pub open spec fn scan_read(result: Result<usize, SerializationError>) -> Result<
    int,
    SerializationError,
> {
    match result {
        Ok(end) => Ok(end as int),
        Err(error) => Err(error),
    }
}

/// Check that one item in canonical form starts at `pos`, without building its value.
///
/// Returns the position after the item exactly when reading it as a value would succeed;
/// otherwise the fault that reading would meet first: an indefinite length, a head longer
/// than its argument needs, a map key out of order, or malformed input.
#[verifier::loop_isolation(false)]
pub fn verify_canonical_item(bytes: &[u8], pos: usize) -> (result: Result<usize, SerializationError>)
    requires
        pos <= bytes.len(),
    ensures
        scan_read(result) == end_of(decode_item(bytes@, pos as int)),
        result matches Ok(end) ==> pos < end <= bytes.len(),
    decreases bytes.len() - pos,
{
    if pos < bytes.len() && (bytes[pos] == SIMPLE_FALSE || bytes[pos] == SIMPLE_TRUE) {
        return Ok(pos + 1);
    }
    if pos < bytes.len() && bytes[pos] / 32 == MAJOR_SIMPLE && bytes[pos] % 32 != INFO_INDEFINITE {
        return Err(SerializationError::Decode(DecodeError::Malformed));
    }
    let (major, n, after) = match read_head(bytes, pos) {
        Ok(head) => head,
        Err(error) => {
            return Err(error);
        },
    };
    if major == MAJOR_UNSIGNED {
        Ok(after)
    } else if major == MAJOR_BYTES || major == MAJOR_TEXT {
        if n > (bytes.len() - after) as u64 {
            return Err(SerializationError::Decode(DecodeError::Malformed));
        }
        let end = after + n as usize;
        if major == MAJOR_TEXT && str_from_utf8(vstd::slice::slice_subrange(bytes, after, end)).is_none() {
            return Err(SerializationError::Decode(DecodeError::Malformed));
        }
        Ok(end)
    } else if major == MAJOR_ARRAY {
        let mut cur = after;
        let mut i: u64 = 0;
        while i < n
            invariant
                pos < after <= cur <= bytes.len(),
                i <= n,
                end_of(decode_items(bytes@, after as int, i as nat)) == Ok::<int, SerializationError>(
                    cur as int,
                ),
            decreases n - i,
        {
            match verify_canonical_item(bytes, cur) {
                Err(error) => {
                    proof {
                        lemma_decode_items_error(bytes@, after as int, (i + 1) as nat, n as nat);
                    }
                    return Err(error);
                },
                Ok(end) => {
                    cur = end;
                    i += 1;
                },
            }
        }
        Ok(cur)
    } else if major == MAJOR_MAP {
        let mut cur = after;
        let mut last_start = after;
        let mut last_end = after;
        let mut i: u64 = 0;
        while i < n
            invariant
                pos < after <= cur <= bytes.len(),
                after <= last_start <= last_end <= bytes.len(),
                i <= n,
                entries_end_of(decode_entries(bytes@, after as int, i as nat)) == Ok::<
                    (int, int, int),
                    SerializationError,
                >((cur as int, last_start as int, last_end as int)),
            decreases n - i,
        {
            let key_end = match verify_canonical_item(bytes, cur) {
                Ok(end) => end,
                Err(error) => {
                    proof {
                        lemma_decode_entries_error(bytes@, after as int, (i + 1) as nat, n as nat);
                    }
                    return Err(error);
                },
            };
            if i > 0 && !range_lt(bytes, last_start, last_end, cur, key_end) {
                proof {
                    lemma_decode_entries_error(bytes@, after as int, (i + 1) as nat, n as nat);
                }
                return Err(SerializationError::Canonical(CanonicalityViolation::UnsortedMapKey));
            }
            let end = match verify_canonical_item(bytes, key_end) {
                Ok(end) => end,
                Err(error) => {
                    proof {
                        lemma_decode_entries_error(bytes@, after as int, (i + 1) as nat, n as nat);
                    }
                    return Err(error);
                },
            };
            last_start = cur;
            last_end = key_end;
            cur = end;
            i += 1;
        }
        Ok(cur)
    } else {
        Err(SerializationError::Decode(DecodeError::Malformed))
    }
}

/// Verify that `bytes` are exactly one value in canonical form.
///
/// Succeeds exactly when `bytes` can be read as a value, which (see `law_decoding_inverts`)
/// means that they are the canonical encoding of that value: definite lengths, minimal heads
/// and strictly sorted map keys throughout.
pub fn verify_canonical(bytes: &[u8]) -> (result: Result<(), SerializationError>)
    ensures
        match result {
            Ok(_) => decoding(bytes@) is Ok,
            Err(error) => decoding(bytes@) == Err::<CborModel, SerializationError>(error),
        },
{
    match verify_canonical_item(bytes, 0) {
        Err(error) => Err(error),
        Ok(end) => {
            if end == bytes.len() {
                Ok(())
            } else {
                Err(SerializationError::Decode(DecodeError::Malformed))
            }
        },
    }
}

/// Serialize a value to canonical bytes.
///
/// Writes the encoding of `value` and validates what was written before handing it out. The
/// bytes are the encoding of the value, the same for equal values on every run. Writing fails
/// only for a value that holds a map whose keys are not in strictly increasing order of their
/// encodings.
pub fn to_canonical_cbor(value: &CborValue) -> (result: Result<Vec<u8>, SerializationError>)
    ensures
        match result {
            Ok(bytes) => canonical(value@) && bytes@ == encoding(value@) && decoding(bytes@) == Ok::<
                CborModel,
                SerializationError,
            >(value@),
            Err(error) => !keys_sorted(value@) && error == unsorted(),
        },
{
    let mut buf: Vec<u8> = Vec::new();
    encode_into(value, &mut buf);
    proof {
        assert(buf@ =~= encoding(value@));
        assert(buf@.subrange(0, buf@.len() as int) =~= buf@);
        lemma_decode_encoding(buf@, 0, value@);
    }
    match verify_canonical(buf.as_slice()) {
        Ok(_) => Ok(buf),
        Err(error) => Err(error),
    }
}

} // verus!
