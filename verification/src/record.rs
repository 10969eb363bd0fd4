//! Records in the canonical encoding: maps from field names to values, with the fields in the
//! order of their encoded names and absent optional fields left out.

use crate::cbor::{
    encoding, entry_models, keys_sorted, lemma_array_model, lemma_mapping_model, lex_lt, models,
    CborModel, CborValue, MAJOR_TEXT,
};
use crate::cbor_laws::lemma_head_len;
use crate::types::{same_text, Hash256};
use vstd::prelude::*;
use vstd::utf8::*;

verus! {

/// The entries of a record, for its first `count` fields: one entry for each field that is
/// present, keyed by the field's name.
pub open spec fn record_entries(
    names: Seq<Seq<char>>,
    values: Seq<Option<CborModel>>,
    count: nat,
) -> Seq<(CborModel, CborModel)>
    decreases count,
{
    if count == 0 || count > names.len() || count > values.len() {
        Seq::empty()
    } else {
        let before = record_entries(names, values, (count - 1) as nat);
        match values[count - 1] {
            Some(value) => before.push((CborModel::Text(names[count - 1]), value)),
            None => before,
        }
    }
}

/// The value of a record with the given field names and field values.
pub open spec fn record_model(names: Seq<Seq<char>>, values: Seq<Option<CborModel>>) -> CborModel {
    CborModel::Mapping(record_entries(names, values, names.len()))
}

/// Where a field name stands in the order of encoded names, for names of less than 24 ASCII
/// characters: shorter names first, and names of one length by their first character.
pub open spec fn name_rank(name: Seq<char>) -> int {
    name.len() * 0x100 + name[0] as int
}

/// Whether a name is a short ASCII name, for which `name_rank` gives the order.
pub open spec fn short_name(name: Seq<char>) -> bool {
    0 < name.len() < 24 && is_ascii_chars(name)
}

/// Whether the names are short ASCII names in strictly increasing rank.
pub open spec fn names_ranked(names: Seq<Seq<char>>) -> bool {
    &&& forall|i: int| 0 <= i < names.len() ==> short_name(#[trigger] names[i])
    &&& forall|i: int, j: int|
        0 <= i < j < names.len() ==> name_rank(#[trigger] names[i]) < name_rank(
            #[trigger] names[j],
        )
}

/// The value of a byte string in a record: an array of its bytes as integers.
pub open spec fn bytes_model(bytes: Seq<u8>) -> CborModel {
    CborModel::Array(Seq::new(bytes.len(), |i: int| CborModel::Unsigned(bytes[i] as u64)))
}

/// The value of a list of texts in a record.
pub open spec fn texts_model(texts: Seq<Seq<char>>) -> CborModel {
    CborModel::Array(Seq::new(texts.len(), |i: int| CborModel::Text(texts[i])))
}

/// The texts of a list of strings.
pub open spec fn text_views(texts: Seq<String>) -> Seq<Seq<char>> {
    Seq::new(texts.len(), |i: int| texts[i]@)
}

/// A name of lower rank encodes to bytes that sort first.
pub proof fn lemma_rank_orders_names(a: Seq<char>, b: Seq<char>)
    requires
        short_name(a),
        short_name(b),
        name_rank(a) < name_rank(b),
    ensures
        lex_lt(encoding(CborModel::Text(a)), encoding(CborModel::Text(b))),
{
    is_ascii_chars_encode_utf8(a);
    is_ascii_chars_encode_utf8(b);
    let a_bytes = encode_utf8(a);
    let b_bytes = encode_utf8(b);
    let a_enc = encoding(CborModel::Text(a));
    let b_enc = encoding(CborModel::Text(b));
    lemma_head_len(MAJOR_TEXT, a_bytes.len());
    lemma_head_len(MAJOR_TEXT, b_bytes.len());
    assert(a_enc[0] == 0x60 + a.len());
    assert(b_enc[0] == 0x60 + b.len());
    if a.len() == b.len() {
        assert(a_enc[1] == a_bytes[0]);
        assert(b_enc[1] == b_bytes[0]);
        assert(a_enc.skip(1)[0] == a_enc[1]);
        assert(b_enc.skip(1)[0] == b_enc[1]);
        assert(a[0] as int <= 0x7f && b[0] as int <= 0x7f);
        assert(lex_lt(a_enc.skip(1), b_enc.skip(1)));
    }
}

/// What holds of the entries of a record with ranked names: every key is one of the first
/// `count` names, the keys stand in increasing rank, and the values are those of the record.
pub open spec fn entries_ranked(
    entries: Seq<(CborModel, CborModel)>,
    names: Seq<Seq<char>>,
    count: nat,
) -> bool {
    &&& forall|i: int|
        0 <= i < entries.len() ==> (#[trigger] entries[i]).0 is Text && short_name(
            entries[i].0->Text_0,
        ) && (count > 0 ==> name_rank(entries[i].0->Text_0) <= name_rank(names[count - 1]))
    &&& forall|i: int, j: int|
        0 <= i < j < entries.len() ==> name_rank((#[trigger] entries[i]).0->Text_0) < name_rank(
            (#[trigger] entries[j]).0->Text_0,
        )
}

/// The values of a record's entries are values of the record.
pub proof fn lemma_record_entries_sorted(
    names: Seq<Seq<char>>,
    values: Seq<Option<CborModel>>,
    count: nat,
)
    requires
        names.len() == values.len(),
        count <= names.len(),
        forall|i: int|
            0 <= i < values.len() && (#[trigger] values[i]) is Some ==> keys_sorted(
                values[i].unwrap(),
            ),
    ensures
        forall|i: int|
            0 <= i < record_entries(names, values, count).len() ==> keys_sorted(
                (#[trigger] record_entries(names, values, count)[i]).0,
            ) && keys_sorted(record_entries(names, values, count)[i].1),
    decreases count,
{
    if count > 0 {
        lemma_record_entries_sorted(names, values, (count - 1) as nat);
        let before = record_entries(names, values, (count - 1) as nat);
        let entries = record_entries(names, values, count);
        assert forall|i: int| 0 <= i < entries.len() implies keys_sorted((#[trigger] entries[i]).0)
            && keys_sorted(entries[i].1) by {
            if i < before.len() {
                assert(entries[i] == before[i]);
            }
        }
    }
}

/// The entries of a record with ranked names are keyed by those names, in increasing rank.
pub proof fn lemma_record_entries_ranked(
    names: Seq<Seq<char>>,
    values: Seq<Option<CborModel>>,
    count: nat,
)
    requires
        names_ranked(names),
        names.len() == values.len(),
        count <= names.len(),
    ensures
        entries_ranked(record_entries(names, values, count), names, count),
    decreases count,
{
    if count > 0 {
        lemma_record_entries_ranked(names, values, (count - 1) as nat);
        let before = record_entries(names, values, (count - 1) as nat);
        let entries = record_entries(names, values, count);
        if count > 1 {
            assert(name_rank(names[count - 2]) < name_rank(names[count - 1]));
        }
        assert forall|i: int| 0 <= i < entries.len() implies (#[trigger] entries[i]).0 is Text
            && short_name(entries[i].0->Text_0) && name_rank(entries[i].0->Text_0) <= name_rank(
            names[count - 1],
        ) by {
            if i < before.len() {
                assert(entries[i] == before[i]);
            }
        }
        assert forall|i: int, j: int| 0 <= i < j < entries.len() implies name_rank(
            (#[trigger] entries[i]).0->Text_0,
        ) < name_rank((#[trigger] entries[j]).0->Text_0) by {
            assert(entries[i] == before[i]);
            if j < before.len() {
                assert(entries[j] == before[j]);
            }
        }
    }
}

/// A record with ranked names, and with values whose own maps are in order, is in order.
pub proof fn lemma_record_sorted(names: Seq<Seq<char>>, values: Seq<Option<CborModel>>)
    requires
        names_ranked(names),
        names.len() == values.len(),
        forall|i: int|
            0 <= i < values.len() && (#[trigger] values[i]) is Some ==> keys_sorted(
                values[i].unwrap(),
            ),
    ensures
        keys_sorted(record_model(names, values)),
{
    let entries = record_entries(names, values, names.len());
    lemma_record_entries_ranked(names, values, names.len());
    lemma_record_entries_sorted(names, values, names.len());
    assert forall|i: int| 0 < i < entries.len() implies lex_lt(
        encoding(entries[i - 1].0),
        encoding((#[trigger] entries[i]).0),
    ) by {
        assert(name_rank(entries[i - 1].0->Text_0) < name_rank(entries[i].0->Text_0));
        lemma_rank_orders_names(entries[i - 1].0->Text_0, entries[i].0->Text_0);
    }
}

/// The value of an unsigned integer in a record.
pub fn unsigned_value(n: u64) -> (value: CborValue)
    ensures
        value@ == CborModel::Unsigned(n),
{
    CborValue::Unsigned(n)
}

/// The value of a text in a record.
pub fn text_value(text: &str) -> (value: CborValue)
    ensures
        value@ == CborModel::Text(text@),
{
    CborValue::Text(text.to_owned())
}

/// The value of a byte string in a record.
pub fn bytes_value(bytes: &[u8]) -> (value: CborValue)
    ensures
        value@ == bytes_model(bytes@),
{
    let mut items: Vec<CborValue> = Vec::new();
    let mut i: usize = 0;
    while i < bytes.len()
        invariant
            i <= bytes.len(),
            items@.len() == i,
            forall|j: int| 0 <= j < i ==> (#[trigger] items@[j])@ == CborModel::Unsigned(
                bytes@[j] as u64,
            ),
        decreases bytes.len() - i,
    {
        items.push(CborValue::Unsigned(bytes[i] as u64));
        i += 1;
    }
    proof {
        lemma_array_model(items);
        assert(models(items@) =~= bytes_model(bytes@)->Array_0);
    }
    CborValue::Array(items)
}

/// The value of a list of texts in a record.
pub fn texts_value(texts: &Vec<String>) -> (value: CborValue)
    ensures
        value@ == texts_model(text_views(texts@)),
{
    let mut items: Vec<CborValue> = Vec::new();
    let mut i: usize = 0;
    while i < texts.len()
        invariant
            i <= texts.len(),
            items@.len() == i,
            forall|j: int| 0 <= j < i ==> (#[trigger] items@[j])@ == CborModel::Text(texts@[j]@),
        decreases texts.len() - i,
    {
        items.push(CborValue::Text(texts[i].clone()));
        i += 1;
    }
    proof {
        lemma_array_model(items);
        assert(models(items@) =~= texts_model(text_views(texts@))->Array_0);
    }
    CborValue::Array(items)
}

/// Add a field to the entries of a record, if the field is present.
pub fn push_field(entries: &mut Vec<(CborValue, CborValue)>, name: &str, value: Option<CborValue>)
    ensures
        entry_models(final(entries)@) == (match value {
            Some(present) => entry_models(old(entries)@).push((CborModel::Text(name@), present@)),
            None => entry_models(old(entries)@),
        }),
{
    let ghost before = entry_models(entries@);
    match value {
        Some(present) => {
            let ghost model = present@;
            entries.push((CborValue::Text(name.to_owned()), present));
            assert(entry_models(entries@) =~= before.push((CborModel::Text(name@), model)));
        },
        None => {},
    }
}

/// The record that holds the given entries.
pub fn record_value(entries: Vec<(CborValue, CborValue)>) -> (value: CborValue)
    ensures
        value@ == CborModel::Mapping(entry_models(entries@)),
{
    proof {
        lemma_mapping_model(entries);
    }
    CborValue::Mapping(entries)
}

/// What reading the first `count` fields of a record from its entries gives: the value of
/// each field, none for a field that is absent, and the number of entries read. The entries
/// must list the fields in the order of `names`.
pub open spec fn fields_upto(
    entries: Seq<(CborModel, CborModel)>,
    names: Seq<Seq<char>>,
    count: nat,
) -> (Seq<Option<CborModel>>, int)
    decreases count,
{
    if count == 0 || count > names.len() {
        (Seq::empty(), 0)
    } else {
        let (values, cursor) = fields_upto(entries, names, (count - 1) as nat);
        if 0 <= cursor < entries.len() && entries[cursor].0 == CborModel::Text(names[count - 1]) {
            (values.push(Some(entries[cursor].1)), cursor + 1)
        } else {
            (values.push(None), cursor)
        }
    }
}

/// The field values of a record with the given field names, if `value` is such a record: a
/// map that holds fields of these names only, in this order.
pub open spec fn record_fields(value: CborModel, names: Seq<Seq<char>>) -> Option<
    Seq<Option<CborModel>>,
> {
    match value {
        CborModel::Mapping(entries) => {
            let (values, cursor) = fields_upto(entries, names, names.len());
            if cursor == entries.len() {
                Some(values)
            } else {
                None
            }
        },
        _ => None,
    }
}

/// The first `count` fields of a record are read back from its entries.
pub proof fn lemma_fields_of_record(
    names: Seq<Seq<char>>,
    values: Seq<Option<CborModel>>,
    count: nat,
    total: nat,
)
    requires
        names_ranked(names),
        names.len() == values.len(),
        count <= total <= names.len(),
    ensures
        fields_upto(record_entries(names, values, total), names, count) == (
            values.take(count as int),
            record_entries(names, values, count).len() as int,
        ),
        record_entries(names, values, count).len() <= record_entries(names, values, total).len(),
        forall|i: int|
            0 <= i < record_entries(names, values, count).len() ==> record_entries(
                names,
                values,
                total,
            )[i] == #[trigger] record_entries(names, values, count)[i],
    decreases total, count,
{
    let all = record_entries(names, values, total);
    let some = record_entries(names, values, count);
    if count < total {
        lemma_fields_of_record(names, values, count, (total - 1) as nat);
    }
    if count > 0 {
        lemma_fields_of_record(names, values, (count - 1) as nat, total);
        lemma_record_entries_ranked(names, values, total);
        lemma_record_entries_ranked(names, values, (count - 1) as nat);
        let before = record_entries(names, values, (count - 1) as nat);
        let cursor = before.len() as int;
        let name = names[count - 1];
        assert(values.take(count as int) =~= values.take(count - 1).push(values[count - 1]));
        if values[count - 1] is Some {
            assert(some[cursor] == (CborModel::Text(name), values[count - 1].unwrap()));
        } else {
            if cursor < all.len() && all[cursor].0 == CborModel::Text(name) {
                lemma_entry_is_later_field(names, values, count, total, cursor);
            }
        }
    } else {
        assert(values.take(0) =~= Seq::<Option<CborModel>>::empty());
    }
}

/// An entry of a record after the entries of its first `count` fields is keyed by a later
/// field's name, so by a name of higher rank than the `count`-th.
pub proof fn lemma_entry_is_later_field(
    names: Seq<Seq<char>>,
    values: Seq<Option<CborModel>>,
    count: nat,
    total: nat,
    at: int,
)
    requires
        names_ranked(names),
        names.len() == values.len(),
        0 < count <= total <= names.len(),
        record_entries(names, values, count).len() <= at < record_entries(
            names,
            values,
            total,
        ).len(),
    ensures
        record_entries(names, values, total)[at].0 is Text,
        name_rank(record_entries(names, values, total)[at].0->Text_0) > name_rank(names[count - 1]),
    decreases total,
{
    let all = record_entries(names, values, total);
    if total > count {
        let before = record_entries(names, values, (total - 1) as nat);
        if at < before.len() {
            lemma_entry_is_later_field(names, values, count, (total - 1) as nat, at);
            assert(all[at] == before[at]);
        } else {
            assert(all[at] == (CborModel::Text(names[total - 1]), values[total - 1].unwrap()));
            assert(name_rank(names[count - 1]) < name_rank(names[total - 1]));
        }
    }
}

/// Reading inverts writing for records: the fields of a record are read back from it.
pub proof fn law_record_fields_read_back(names: Seq<Seq<char>>, values: Seq<Option<CborModel>>)
    requires
        names_ranked(names),
        names.len() == values.len(),
    ensures
        record_fields(record_model(names, values), names) == Some(values),
{
    lemma_fields_of_record(names, values, names.len(), names.len());
    assert(values.take(names.len() as int) =~= values);
}

/// The entries of the first `count` fields of a record look at those fields only.
pub proof fn lemma_record_entries_agree(
    names: Seq<Seq<char>>,
    a: Seq<Option<CborModel>>,
    b: Seq<Option<CborModel>>,
    count: nat,
)
    requires
        count <= a.len(),
        count <= b.len(),
        forall|i: int| 0 <= i < count ==> a[i] == b[i],
    ensures
        record_entries(names, a, count) == record_entries(names, b, count),
    decreases count,
{
    if count > 0 {
        lemma_record_entries_agree(names, a, b, (count - 1) as nat);
    }
}

/// The entries that were read as the first `count` fields are the entries of a record with
/// the field values that were read.
pub proof fn lemma_fields_read_are_entries(
    entries: Seq<(CborModel, CborModel)>,
    names: Seq<Seq<char>>,
    count: nat,
)
    requires
        count <= names.len(),
    ensures
        0 <= fields_upto(entries, names, count).1 <= entries.len(),
        fields_upto(entries, names, count).0.len() == count,
        entries.take(fields_upto(entries, names, count).1) == record_entries(
            names,
            fields_upto(entries, names, count).0,
            count,
        ),
    decreases count,
{
    let (values, cursor) = fields_upto(entries, names, count);
    if count == 0 {
        assert(entries.take(0) =~= Seq::<(CborModel, CborModel)>::empty());
    } else {
        let (before, mid) = fields_upto(entries, names, (count - 1) as nat);
        lemma_fields_read_are_entries(entries, names, (count - 1) as nat);
        lemma_record_entries_agree(names, values, before, (count - 1) as nat);
        if 0 <= mid < entries.len() && entries[mid].0 == CborModel::Text(names[count - 1]) {
            assert(entries.take(mid + 1) =~= entries.take(mid).push(entries[mid]));
        }
    }
}

/// Only records read as records: a value whose fields were read is the record of those
/// fields.
pub proof fn law_fields_determine_record(value: CborModel, names: Seq<Seq<char>>)
    requires
        record_fields(value, names) is Some,
    ensures
        record_fields(value, names).unwrap().len() == names.len(),
        value == record_model(names, record_fields(value, names).unwrap()),
{
    let entries = value->Mapping_0;
    lemma_fields_read_are_entries(entries, names, names.len());
    assert(entries.take(entries.len() as int) =~= entries);
}

/// The unsigned integer that a record value holds, if it holds one.
pub open spec fn model_unsigned(value: CborModel) -> Option<u64> {
    match value {
        CborModel::Unsigned(n) => Some(n),
        _ => None,
    }
}

/// The text that a record value holds, if it holds one.
pub open spec fn model_text(value: CborModel) -> Option<Seq<char>> {
    match value {
        CborModel::Text(text) => Some(text),
        _ => None,
    }
}

/// Whether a record value is a byte: an unsigned integer below 256.
pub open spec fn is_byte(value: CborModel) -> bool {
    value is Unsigned && value->Unsigned_0 < 256
}

/// The byte string that a record value holds, if it holds one: the value must be an array
/// of bytes.
pub open spec fn model_bytes(value: CborModel) -> Option<Seq<u8>> {
    match value {
        CborModel::Array(items) => if forall|i: int|
            0 <= i < items.len() ==> is_byte(#[trigger] items[i]) {
            Some(Seq::new(items.len(), |i: int| items[i]->Unsigned_0 as u8))
        } else {
            None
        },
        _ => None,
    }
}

/// The list of texts that a record value holds, if it holds one.
pub open spec fn model_texts(value: CborModel) -> Option<Seq<Seq<char>>> {
    match value {
        CborModel::Array(items) => if forall|i: int|
            0 <= i < items.len() ==> (#[trigger] items[i]) is Text {
            Some(Seq::new(items.len(), |i: int| items[i]->Text_0))
        } else {
            None
        },
        _ => None,
    }
}

/// A byte string is read back from its record value, and only from that value.
pub proof fn lemma_bytes_read_back(bytes: Seq<u8>)
    ensures
        model_bytes(bytes_model(bytes)) == Some(bytes),
{
    let items = bytes_model(bytes)->Array_0;
    assert forall|i: int| 0 <= i < items.len() implies is_byte(#[trigger] items[i]) by {}
    assert(Seq::new(items.len(), |i: int| items[i]->Unsigned_0 as u8) =~= bytes);
}

/// A record value that reads as a byte string is the value of that byte string.
pub proof fn lemma_bytes_value_unique(value: CborModel)
    requires
        model_bytes(value) is Some,
    ensures
        bytes_model(model_bytes(value).unwrap()) == value,
{
    let items = value->Array_0;
    let bytes = model_bytes(value).unwrap();
    assert forall|i: int| 0 <= i < items.len() implies CborModel::Unsigned(bytes[i] as u64)
        == items[i] by {
        assert(is_byte(items[i]));
    }
    assert(bytes_model(bytes)->Array_0 =~= items);
}

/// A list of texts is read back from its record value.
pub proof fn lemma_texts_read_back(texts: Seq<Seq<char>>)
    ensures
        model_texts(texts_model(texts)) == Some(texts),
{
    let items = texts_model(texts)->Array_0;
    assert forall|i: int| 0 <= i < items.len() implies (#[trigger] items[i]) is Text by {}
    assert(Seq::new(items.len(), |i: int| items[i]->Text_0) =~= texts);
}

/// A record value that reads as a list of texts is the value of that list.
pub proof fn lemma_texts_value_unique(value: CborModel)
    requires
        model_texts(value) is Some,
    ensures
        texts_model(model_texts(value).unwrap()) == value,
{
    let items = value->Array_0;
    let texts = model_texts(value).unwrap();
    assert forall|i: int| 0 <= i < items.len() implies CborModel::Text(texts[i]) == items[i] by {
        assert(items[i] is Text);
    }
    assert(texts_model(texts)->Array_0 =~= items);
}

/// The texts of a list of names.
pub open spec fn name_views(names: Seq<&'static str>) -> Seq<Seq<char>> {
    Seq::new(names.len(), |i: int| names[i]@)
}

/// The models of the field values that were read.
pub open spec fn field_models(fields: Seq<Option<&CborValue>>) -> Seq<Option<CborModel>> {
    Seq::new(
        fields.len(),
        |i: int|
            match fields[i] {
                Some(value) => Some(value@),
                None => None,
            },
    )
}

/// Read the fields of a record with the given field names: the value of each field, none
/// for a field that is absent; nothing if `value` is no such record.
pub fn read_fields<'a>(value: &'a CborValue, names: &[&'static str]) -> (fields: Option<
    Vec<Option<&'a CborValue>>,
>)
    ensures
        fields is Some <==> record_fields(value@, name_views(names@)) is Some,
        fields is Some ==> record_fields(value@, name_views(names@)) == Some(
            field_models(fields.unwrap()@),
        ),
        fields is Some ==> fields.unwrap()@.len() == names@.len(),
{
    let entries = match value {
        CborValue::Mapping(entries) => entries,
        _ => {
            return None;
        },
    };
    proof {
        lemma_mapping_model(*entries);
    }
    let ghost all = entry_models(entries@);
    let ghost wanted = name_views(names@);
    let mut fields: Vec<Option<&'a CborValue>> = Vec::new();
    let mut cursor: usize = 0;
    let mut k: usize = 0;
    assert(field_models(fields@) =~= Seq::<Option<CborModel>>::empty());
    while k < names.len()
        invariant
            k <= names.len(),
            cursor <= entries@.len(),
            all == entry_models(entries@),
            wanted == name_views(names@),
            fields@.len() == k,
            fields_upto(all, wanted, k as nat) == (field_models(fields@), cursor as int),
        decreases names.len() - k,
    {
        let ghost before = field_models(fields@);
        let mut found = false;
        if cursor < entries.len() {
            match &entries[cursor].0 {
                CborValue::Text(key) => {
                    if same_text(key.as_str(), names[k]) {
                        found = true;
                    }
                },
                _ => {},
            }
        }
        assert(found == (cursor < all.len() && all[cursor as int].0 == CborModel::Text(
            wanted[k as int],
        )));
        if found {
            fields.push(Some(&entries[cursor].1));
            assert(field_models(fields@) =~= before.push(Some(all[cursor as int].1)));
            cursor += 1;
        } else {
            fields.push(None);
            assert(field_models(fields@) =~= before.push(None));
        }
        k += 1;
    }
    if cursor == entries.len() {
        Some(fields)
    } else {
        None
    }
}

/// The unsigned integer that a field holds, if it holds one.
pub fn as_unsigned(value: &CborValue) -> (n: Option<u64>)
    ensures
        n == model_unsigned(value@),
{
    match value {
        CborValue::Unsigned(n) => Some(*n),
        _ => None,
    }
}

/// The text that a field holds, if it holds one.
pub fn as_text(value: &CborValue) -> (text: Option<&str>)
    ensures
        text is Some <==> model_text(value@) is Some,
        text is Some ==> model_text(value@) == Some(text.unwrap()@),
{
    match value {
        CborValue::Text(text) => Some(text.as_str()),
        _ => None,
    }
}

/// The byte string that a field holds, if it holds one.
pub fn as_bytes(value: &CborValue) -> (bytes: Option<Vec<u8>>)
    ensures
        bytes is Some <==> model_bytes(value@) is Some,
        bytes is Some ==> model_bytes(value@) == Some(bytes.unwrap()@),
{
    let items = match value {
        CborValue::Array(items) => items,
        _ => {
            return None;
        },
    };
    proof {
        lemma_array_model(*items);
    }
    let ghost all = models(items@);
    let mut bytes: Vec<u8> = Vec::new();
    let mut i: usize = 0;
    while i < items.len()
        invariant
            i <= items.len(),
            all == models(items@),
            value@ == CborModel::Array(all),
            bytes@.len() == i,
            forall|j: int| 0 <= j < i ==> is_byte(#[trigger] all[j]),
            forall|j: int| 0 <= j < i ==> bytes@[j] == all[j]->Unsigned_0 as u8,
        decreases items.len() - i,
    {
        match &items[i] {
            CborValue::Unsigned(n) => {
                if *n >= 256 {
                    assert(!is_byte(all[i as int]));
                    return None;
                }
                bytes.push(*n as u8);
            },
            _ => {
                assert(!is_byte(all[i as int]));
                return None;
            },
        }
        i += 1;
    }
    assert(bytes@ =~= model_bytes(value@).unwrap());
    Some(bytes)
}

/// The 32-byte hash that a field holds, if it holds one.
pub fn as_hash(value: &CborValue) -> (hash: Option<Hash256>)
    ensures
        hash is Some <==> model_bytes(value@) is Some && model_bytes(value@).unwrap().len() == 32,
        hash is Some ==> model_bytes(value@) == Some(hash.unwrap()@),
{
    let bytes = match as_bytes(value) {
        Some(bytes) => bytes,
        None => {
            return None;
        },
    };
    if bytes.len() != 32 {
        return None;
    }
    let mut hash = [0u8; 32];
    let mut i: usize = 0;
    while i < 32
        invariant
            i <= 32,
            bytes@.len() == 32,
            forall|j: int| 0 <= j < i ==> hash@[j] == bytes@[j],
        decreases 32 - i,
    {
        hash[i] = bytes[i];
        i += 1;
    }
    assert(hash@ =~= bytes@);
    Some(hash)
}

/// The list of texts that a field holds, if it holds one.
pub fn as_texts(value: &CborValue) -> (texts: Option<Vec<String>>)
    ensures
        texts is Some <==> model_texts(value@) is Some,
        texts is Some ==> model_texts(value@) == Some(text_views(texts.unwrap()@)),
{
    let items = match value {
        CborValue::Array(items) => items,
        _ => {
            return None;
        },
    };
    proof {
        lemma_array_model(*items);
    }
    let ghost all = models(items@);
    let mut texts: Vec<String> = Vec::new();
    let mut i: usize = 0;
    while i < items.len()
        invariant
            i <= items.len(),
            all == models(items@),
            value@ == CborModel::Array(all),
            texts@.len() == i,
            forall|j: int| 0 <= j < i ==> (#[trigger] all[j]) is Text,
            forall|j: int| 0 <= j < i ==> texts@[j]@ == all[j]->Text_0,
        decreases items.len() - i,
    {
        match &items[i] {
            CborValue::Text(text) => {
                texts.push(text.clone());
            },
            _ => {
                assert(!(all[i as int] is Text));
                return None;
            },
        }
        i += 1;
    }
    assert(text_views(texts@) =~= model_texts(value@).unwrap());
    Some(texts)
}

/// The 32-byte hash that a record value holds, if it holds one.
pub open spec fn model_hash(value: CborModel) -> Option<Seq<u8>> {
    match model_bytes(value) {
        Some(bytes) => if bytes.len() == 32 {
            Some(bytes)
        } else {
            None
        },
        None => None,
    }
}

/// The unsigned integer of a field that must be present.
pub open spec fn required_unsigned(field: Option<CborModel>) -> Option<u64> {
    match field {
        Some(value) => model_unsigned(value),
        None => None,
    }
}

/// The text of a field that must be present.
pub open spec fn required_text(field: Option<CborModel>) -> Option<Seq<char>> {
    match field {
        Some(value) => model_text(value),
        None => None,
    }
}

/// The byte string of a field that must be present.
pub open spec fn required_bytes(field: Option<CborModel>) -> Option<Seq<u8>> {
    match field {
        Some(value) => model_bytes(value),
        None => None,
    }
}

/// The hash of a field that must be present.
pub open spec fn required_hash(field: Option<CborModel>) -> Option<Seq<u8>> {
    match field {
        Some(value) => model_hash(value),
        None => None,
    }
}

/// The unsigned integer of a field that may be absent; nothing if the field is present and holds something else.
pub open spec fn optional_unsigned(field: Option<CborModel>) -> Option<Option<u64>> {
    match field {
        Some(value) => match model_unsigned(value) {
            Some(read) => Some(Some(read)),
            None => None,
        },
        None => Some(None),
    }
}

/// The text of a field that may be absent.
pub open spec fn optional_text(field: Option<CborModel>) -> Option<Option<Seq<char>>> {
    match field {
        Some(value) => match model_text(value) {
            Some(read) => Some(Some(read)),
            None => None,
        },
        None => Some(None),
    }
}

/// The byte string of a field that may be absent.
pub open spec fn optional_bytes(field: Option<CborModel>) -> Option<Option<Seq<u8>>> {
    match field {
        Some(value) => match model_bytes(value) {
            Some(read) => Some(Some(read)),
            None => None,
        },
        None => Some(None),
    }
}

/// The hash of a field that may be absent.
pub open spec fn optional_hash(field: Option<CborModel>) -> Option<Option<Seq<u8>>> {
    match field {
        Some(value) => match model_hash(value) {
            Some(read) => Some(Some(read)),
            None => None,
        },
        None => Some(None),
    }
}

/// The list of texts of a field that may be absent.
pub open spec fn optional_texts(field: Option<CborModel>) -> Option<Option<Seq<Seq<char>>>> {
    match field {
        Some(value) => match model_texts(value) {
            Some(read) => Some(Some(read)),
            None => None,
        },
        None => Some(None),
    }
}

/// The model of a field that was read.
pub open spec fn field_model(field: Option<&CborValue>) -> Option<CborModel> {
    match field {
        Some(value) => Some(value@),
        None => None,
    }
}

/// The text of an optional string.
pub open spec fn optional_view(text: Option<String>) -> Option<Seq<char>> {
    match text {
        Some(present) => Some(present@),
        None => None,
    }
}

/// The bytes of an optional byte vector.
pub open spec fn optional_bytes_view(bytes: Option<Vec<u8>>) -> Option<Seq<u8>> {
    match bytes {
        Some(present) => Some(present@),
        None => None,
    }
}

/// The bytes of an optional hash.
pub open spec fn optional_hash_view(hash: Option<Hash256>) -> Option<Seq<u8>> {
    match hash {
        Some(present) => Some(present@),
        None => None,
    }
}

/// The texts of an optional list of strings.
pub open spec fn optional_texts_view(texts: Option<Vec<String>>) -> Option<Seq<Seq<char>>> {
    match texts {
        Some(present) => Some(text_views(present@)),
        None => None,
    }
}

/// The unsigned integer of a field that must be present.
pub fn read_unsigned(field: Option<&CborValue>) -> (n: Option<u64>)
    ensures
        n == required_unsigned(field_model(field)),
{
    match field {
        Some(value) => as_unsigned(value),
        None => None,
    }
}

/// The text of a field that must be present.
pub fn read_text(field: Option<&CborValue>) -> (text: Option<String>)
    ensures
        optional_view(text) == required_text(field_model(field)),
{
    match field {
        Some(value) => match as_text(value) {
            Some(text) => Some(text.to_owned()),
            None => None,
        },
        None => None,
    }
}

/// The byte string of a field that must be present.
pub fn read_bytes(field: Option<&CborValue>) -> (bytes: Option<Vec<u8>>)
    ensures
        optional_bytes_view(bytes) == required_bytes(field_model(field)),
{
    match field {
        Some(value) => as_bytes(value),
        None => None,
    }
}

/// The hash of a field that must be present.
pub fn read_hash(field: Option<&CborValue>) -> (hash: Option<Hash256>)
    ensures
        optional_hash_view(hash) == required_hash(field_model(field)),
{
    match field {
        Some(value) => as_hash(value),
        None => None,
    }
}

/// The unsigned integer of a field that may be absent; nothing if the field is present and
/// holds something else.
pub fn read_optional_unsigned(field: Option<&CborValue>) -> (n: Option<Option<u64>>)
    ensures
        n == optional_unsigned(field_model(field)),
{
    match field {
        Some(value) => match as_unsigned(value) {
            Some(n) => Some(Some(n)),
            None => None,
        },
        None => Some(None),
    }
}

/// The text of a field that may be absent.
pub fn read_optional_text(field: Option<&CborValue>) -> (text: Option<Option<String>>)
    ensures
        text is Some <==> optional_text(field_model(field)) is Some,
        text is Some ==> optional_text(field_model(field)) == Some(optional_view(text.unwrap())),
{
    match field {
        Some(value) => match as_text(value) {
            Some(text) => Some(Some(text.to_owned())),
            None => None,
        },
        None => Some(None),
    }
}

/// The byte string of a field that may be absent.
pub fn read_optional_bytes(field: Option<&CborValue>) -> (bytes: Option<Option<Vec<u8>>>)
    ensures
        bytes is Some <==> optional_bytes(field_model(field)) is Some,
        bytes is Some ==> optional_bytes(field_model(field)) == Some(
            optional_bytes_view(bytes.unwrap()),
        ),
{
    match field {
        Some(value) => match as_bytes(value) {
            Some(bytes) => Some(Some(bytes)),
            None => None,
        },
        None => Some(None),
    }
}

/// The hash of a field that may be absent.
pub fn read_optional_hash(field: Option<&CborValue>) -> (hash: Option<Option<Hash256>>)
    ensures
        hash is Some <==> optional_hash(field_model(field)) is Some,
        hash is Some ==> optional_hash(field_model(field)) == Some(
            optional_hash_view(hash.unwrap()),
        ),
{
    match field {
        Some(value) => match as_hash(value) {
            Some(hash) => Some(Some(hash)),
            None => None,
        },
        None => Some(None),
    }
}

/// The list of texts of a field that may be absent.
pub fn read_optional_texts(field: Option<&CborValue>) -> (texts: Option<Option<Vec<String>>>)
    ensures
        texts is Some <==> optional_texts(field_model(field)) is Some,
        texts is Some ==> optional_texts(field_model(field)) == Some(
            optional_texts_view(texts.unwrap()),
        ),
{
    match field {
        Some(value) => match as_texts(value) {
            Some(texts) => Some(Some(texts)),
            None => None,
        },
        None => Some(None),
    }
}

} // verus!
