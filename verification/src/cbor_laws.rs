//! Laws of the canonical encoding: reading inverts writing, and only canonical bytes read.

use crate::cbor::{
    be_bytes, be_value, canonical, decode_entries, decode_head, decode_item, decode_items,
    decoding, encoding, encoding_entries, encoding_items, head, head_extra, head_info, keys_sorted,
    lex_lt, pow256, sizes_fit, violation, CanonicalityViolation, CborModel, CborValue,
    SerializationError,
    MAJOR_ARRAY, MAJOR_BYTES, MAJOR_MAP, MAJOR_TEXT, MAJOR_UNSIGNED,
};
use vstd::prelude::*;
use vstd::utf8::*;

verus! {

/// The value of a big-endian byte string stays below the power of 256 that its length gives.
pub proof fn lemma_be_value_bound(bytes: Seq<u8>)
    ensures
        be_value(bytes) < pow256(bytes.len()),
    decreases bytes.len(),
{
    if bytes.len() > 0 {
        lemma_be_value_bound(bytes.drop_last());
    }
}

/// The powers of 256 that heads use.
pub proof fn lemma_pow256_values()
    ensures
        pow256(0) == 1,
        pow256(1) == 0x100,
        pow256(2) == 0x1_0000,
        pow256(3) == 0x100_0000,
        pow256(4) == 0x1_0000_0000,
        pow256(5) == 0x100_0000_0000,
        pow256(6) == 0x1_0000_0000_0000,
        pow256(7) == 0x100_0000_0000_0000,
        pow256(8) == 0x1_0000_0000_0000_0000,
{
    reveal_with_fuel(pow256, 10);
}

/// Once reading items has failed, asking for more items fails the same way.
pub proof fn lemma_decode_items_error(bytes: Seq<u8>, pos: int, failed: nat, count: nat)
    requires
        failed <= count,
        decode_items(bytes, pos, failed) is Err,
    ensures
        decode_items(bytes, pos, count) == decode_items(bytes, pos, failed),
    decreases count,
{
    if failed < count {
        lemma_decode_items_error(bytes, pos, failed, (count - 1) as nat);
    }
}

/// Once reading entries has failed, asking for more entries fails the same way.
pub proof fn lemma_decode_entries_error(bytes: Seq<u8>, pos: int, failed: nat, count: nat)
    requires
        failed <= count,
        decode_entries(bytes, pos, failed) is Err,
    ensures
        decode_entries(bytes, pos, count) == decode_entries(bytes, pos, failed),
    decreases count,
{
    if failed < count {
        lemma_decode_entries_error(bytes, pos, failed, (count - 1) as nat);
    }
}

/// A number written in `width` bytes takes `width` bytes.
pub proof fn lemma_be_bytes_len(n: nat, width: nat)
    ensures
        be_bytes(n, width).len() == width,
    decreases width,
{
    if width > 0 {
        lemma_be_bytes_len(n / 256, (width - 1) as nat);
    }
}

/// Reading the big-endian bytes of a number that fits gives the number back.
pub proof fn lemma_be_value_of_bytes(n: nat, width: nat)
    requires
        n < pow256(width),
    ensures
        be_value(be_bytes(n, width)) == n,
    decreases width,
{
    if width > 0 {
        let rest = be_bytes(n / 256, (width - 1) as nat);
        lemma_be_value_of_bytes(n / 256, (width - 1) as nat);
        assert(be_bytes(n, width).drop_last() =~= rest);
    }
}

/// Writing the number that a byte string holds, in as many bytes, gives the bytes back.
pub proof fn lemma_be_bytes_of_value(bytes: Seq<u8>)
    ensures
        be_bytes(be_value(bytes), bytes.len()) == bytes,
    decreases bytes.len(),
{
    if bytes.len() > 0 {
        lemma_be_bytes_of_value(bytes.drop_last());
        let n = be_value(bytes);
        assert(n / 256 == be_value(bytes.drop_last()));
        assert(n % 256 == bytes.last() as nat);
        assert(be_bytes(n, bytes.len()) =~= bytes);
    } else {
        assert(be_bytes(be_value(bytes), 0) =~= bytes);
    }
}

/// A head takes its initial byte and the bytes of its argument.
pub proof fn lemma_head_len(major: u8, n: nat)
    ensures
        head(major, n).len() == 1 + head_extra(n),
{
    lemma_be_bytes_len(n, head_extra(n));
}

/// Every encoding has at least one byte.
pub proof fn lemma_encoding_nonempty(value: CborModel)
    ensures
        encoding(value).len() >= 1,
{
    match value {
        CborModel::Unsigned(n) => lemma_head_len(MAJOR_UNSIGNED, n as nat),
        CborModel::Bytes(bytes) => lemma_head_len(MAJOR_BYTES, bytes.len()),
        CborModel::Text(text) => lemma_head_len(MAJOR_TEXT, encode_utf8(text).len()),
        CborModel::Array(items) => lemma_head_len(MAJOR_ARRAY, items.len()),
        CborModel::Mapping(entries) => lemma_head_len(MAJOR_MAP, entries.len()),
        CborModel::Bool(_) => {},
    }
}

/// Reading a head where a head was written gives its major type and argument back.
pub proof fn lemma_decode_head_of_head(bytes: Seq<u8>, pos: int, major: u8, n: nat)
    requires
        major < 7,
        n <= u64::MAX,
        0 <= pos,
        pos + 1 + head_extra(n) <= bytes.len(),
        bytes.subrange(pos, pos + 1 + head_extra(n)) == head(major, n),
    ensures
        decode_head(bytes, pos) == Ok::<(u8, nat, int), SerializationError>(
            (major, n, pos + 1 + head_extra(n)),
        ),
        bytes[pos] < 0xe0,
{
    let written = head(major, n);
    let extra = head_extra(n);
    lemma_head_len(major, n);
    lemma_be_bytes_len(n, extra);
    lemma_pow256_values();
    assert(bytes[pos] == bytes.subrange(pos, pos + 1 + extra)[0]);
    assert(written[0] == (major * 32 + head_info(n)) as u8);
    if extra > 0 {
        let width = extra as int;
        assert(bytes.subrange(pos + 1, pos + 1 + width) =~= written.subrange(1, 1 + width));
        assert(written.subrange(1, 1 + width) =~= be_bytes(n, extra));
        lemma_be_value_of_bytes(n, extra);
    }
}

/// A head that reads is the shortest head of its major type and argument.
pub proof fn lemma_head_of_decode_head(bytes: Seq<u8>, pos: int)
    requires
        decode_head(bytes, pos) is Ok,
    ensures
        ({
            let (major, n, after) = decode_head(bytes, pos).unwrap();
            &&& 0 <= pos < after <= bytes.len()
            &&& after == pos + 1 + head_extra(n)
            &&& n <= u64::MAX
            &&& major < 8
            &&& bytes.subrange(pos, after) == head(major, n)
        }),
{
    let (major, n, after) = decode_head(bytes, pos).unwrap();
    let info = (bytes[pos] % 32) as nat;
    lemma_pow256_values();
    if info < 24 {
        assert(be_bytes(n, 0) =~= Seq::<u8>::empty());
        assert(bytes.subrange(pos, after) =~= head(major, n));
    } else {
        let extra = head_extra(n);
        let argument = bytes.subrange(pos + 1, pos + 1 + extra);
        lemma_be_value_bound(argument);
        lemma_be_bytes_of_value(argument);
        assert(bytes.subrange(pos, after) =~= head(major, n));
    }
}

/// Whether the first `count` items have their map keys in order.
pub open spec fn items_sorted(items: Seq<CborModel>, count: nat) -> bool {
    forall|i: int| 0 <= i < count && i < items.len() ==> keys_sorted(#[trigger] items[i])
}

/// Whether the first `count` entries are in key order, and in order inside.
pub open spec fn entries_sorted(entries: Seq<(CborModel, CborModel)>, count: nat) -> bool {
    &&& forall|i: int|
        0 <= i < count && i < entries.len() ==> keys_sorted((#[trigger] entries[i]).0)
            && keys_sorted(entries[i].1)
    &&& forall|i: int|
        0 < i < count && i < entries.len() ==> lex_lt(
            encoding(entries[i - 1].0),
            encoding((#[trigger] entries[i]).0),
        )
}

/// The error of a map key that is out of order.
pub open spec fn unsorted() -> SerializationError {
    violation(CanonicalityViolation::UnsortedMapKey)
}

/// Where a head and a body were written one after the other, the head reads back and the
/// body follows it.
pub proof fn lemma_head_written(bytes: Seq<u8>, pos: int, major: u8, n: nat, body: Seq<u8>)
    requires
        major < 7,
        n <= u64::MAX,
        0 <= pos,
        pos + (head(major, n) + body).len() <= bytes.len(),
        bytes.subrange(pos, pos + (head(major, n) + body).len()) == head(major, n) + body,
    ensures
        decode_head(bytes, pos) == Ok::<(u8, nat, int), SerializationError>(
            (major, n, pos + 1 + head_extra(n)),
        ),
        bytes[pos] < 0xe0,
        head(major, n).len() == 1 + head_extra(n),
        bytes.subrange(pos + 1 + head_extra(n), pos + 1 + head_extra(n) + body.len()) == body,
{
    let written = head(major, n) + body;
    let hl: int = (1 + head_extra(n)) as int;
    lemma_head_len(major, n);
    assert(bytes.subrange(pos, pos + hl) =~= written.subrange(0, hl));
    assert(written.subrange(0, hl) =~= head(major, n));
    lemma_decode_head_of_head(bytes, pos, major, n);
    assert(bytes.subrange(pos + hl, pos + hl + body.len()) =~= written.subrange(
        hl,
        written.len() as int,
    ));
    assert(written.subrange(hl, written.len() as int) =~= body);
}

/// Reading where a value was written gives the value back if its map keys are in order, and
/// reports a key out of order if they are not.
#[verifier::rlimit(50)]
#[verifier::spinoff_prover]
pub proof fn lemma_decode_encoding(bytes: Seq<u8>, pos: int, value: CborModel)
    requires
        sizes_fit(value),
        0 <= pos,
        pos + encoding(value).len() <= bytes.len(),
        bytes.subrange(pos, pos + encoding(value).len()) == encoding(value),
    ensures
        decode_item(bytes, pos) == (if keys_sorted(value) {
            Ok::<(CborModel, int), SerializationError>((value, pos + encoding(value).len()))
        } else {
            Err::<(CborModel, int), SerializationError>(unsorted())
        }),
    decreases value, 0nat,
{
    match value {
        CborModel::Unsigned(n) => {
            lemma_head_written(bytes, pos, MAJOR_UNSIGNED, n as nat, Seq::empty());
            assert(head(MAJOR_UNSIGNED, n as nat) + Seq::<u8>::empty() =~= encoding(value));
        },
        CborModel::Bytes(content) => {
            lemma_head_written(bytes, pos, MAJOR_BYTES, content.len(), content);
        },
        CborModel::Text(text) => {
            let content = encode_utf8(text);
            lemma_head_written(bytes, pos, MAJOR_TEXT, content.len(), content);
            encode_utf8_valid_utf8(text);
            encode_utf8_decode_utf8(text);
        },
        CborModel::Array(items) => {
            let n = items.len();
            let after = pos + 1 + head_extra(n);
            lemma_head_written(bytes, pos, MAJOR_ARRAY, n, encoding_items(items, n));
            lemma_decode_items_of_encoding(bytes, after, items, n);
            assert(items.take(n as int) =~= items);
            assert(keys_sorted(value) == items_sorted(items, n));
        },
        CborModel::Mapping(entries) => {
            let n = entries.len();
            let after = pos + 1 + head_extra(n);
            lemma_head_written(bytes, pos, MAJOR_MAP, n, encoding_entries(entries, n));
            lemma_decode_entries_of_encoding(bytes, after, entries, n);
            assert(entries.take(n as int) =~= entries);
            assert(keys_sorted(value) == entries_sorted(entries, n));
        },
        CborModel::Bool(_) => {
            assert(bytes[pos] == bytes.subrange(pos, pos + encoding(value).len())[0]);
        },
    }
}

/// Reading items where items were written gives them back if their map keys are in order.
#[verifier::rlimit(50)]
#[verifier::spinoff_prover]
pub proof fn lemma_decode_items_of_encoding(
    bytes: Seq<u8>,
    start: int,
    items: Seq<CborModel>,
    count: nat,
)
    requires
        0 <= start,
        count <= items.len(),
        forall|i: int| 0 <= i < items.len() ==> sizes_fit(#[trigger] items[i]),
        start + encoding_items(items, count).len() <= bytes.len(),
        bytes.subrange(start, start + encoding_items(items, count).len()) == encoding_items(
            items,
            count,
        ),
    ensures
        decode_items(bytes, start, count) == (if items_sorted(items, count) {
            Ok::<(Seq<CborModel>, int), SerializationError>(
                (items.take(count as int), start + encoding_items(items, count).len()),
            )
        } else {
            Err::<(Seq<CborModel>, int), SerializationError>(unsorted())
        }),
    decreases items, count,
{
    if count == 0 {
        assert(items.take(0) =~= Seq::<CborModel>::empty());
    } else {
        let before = encoding_items(items, (count - 1) as nat);
        let last = encoding(items[count - 1]);
        let all = encoding_items(items, count);
        let bl = before.len() as int;
        let mid = start + bl;
        assert(all == before + last);
        assert(bytes.subrange(start, mid) =~= all.subrange(0, bl));
        assert(all.subrange(0, bl) =~= before);
        assert(bytes.subrange(mid, mid + last.len()) =~= all.subrange(bl, all.len() as int));
        assert(all.subrange(bl, all.len() as int) =~= last);
        lemma_decode_items_of_encoding(bytes, start, items, (count - 1) as nat);
        lemma_decode_encoding(bytes, mid, items[count - 1]);
        assert(items.take(count as int) =~= items.take(count - 1).push(items[count - 1]));
        if items_sorted(items, (count - 1) as nat) && keys_sorted(items[count - 1]) {
            assert(items_sorted(items, count));
        }
    }
}

/// Where `count` entries were written, the bytes of the last entry's key and value stand
/// right after the entries before it.
pub proof fn lemma_last_entry_written(
    bytes: Seq<u8>,
    start: int,
    entries: Seq<(CborModel, CborModel)>,
    count: nat,
)
    requires
        0 <= start,
        0 < count <= entries.len(),
        start + encoding_entries(entries, count).len() <= bytes.len(),
        bytes.subrange(start, start + encoding_entries(entries, count).len()) == encoding_entries(
            entries,
            count,
        ),
    ensures
        ({
            let mid = start + encoding_entries(entries, (count - 1) as nat).len();
            let key_end = mid + encoding(entries[count - 1].0).len();
            let end = key_end + encoding(entries[count - 1].1).len();
            &&& end == start + encoding_entries(entries, count).len()
            &&& bytes.subrange(start, mid) == encoding_entries(entries, (count - 1) as nat)
            &&& bytes.subrange(mid, key_end) == encoding(entries[count - 1].0)
            &&& bytes.subrange(key_end, end) == encoding(entries[count - 1].1)
        }),
{
    let before = encoding_entries(entries, (count - 1) as nat);
    let key = encoding(entries[count - 1].0);
    let val = encoding(entries[count - 1].1);
    let all = encoding_entries(entries, count);
    let bl = before.len() as int;
    let kl = key.len() as int;
    let mid = start + bl;
    let key_end = mid + kl;
    assert(all == before + key + val);
    assert(bytes.subrange(start, mid) =~= all.subrange(0, bl));
    assert(all.subrange(0, bl) =~= before);
    assert(bytes.subrange(mid, key_end) =~= all.subrange(bl, bl + kl));
    assert(all.subrange(bl, bl + kl) =~= key);
    assert(bytes.subrange(key_end, key_end + val.len()) =~= all.subrange(bl + kl, all.len() as int));
    assert(all.subrange(bl + kl, all.len() as int) =~= val);
}

/// Reading entries where entries were written gives them back if their keys are in order.
#[verifier::rlimit(50)]
#[verifier::spinoff_prover]
pub proof fn lemma_decode_entries_of_encoding(
    bytes: Seq<u8>,
    start: int,
    entries: Seq<(CborModel, CborModel)>,
    count: nat,
)
    requires
        0 <= start,
        count <= entries.len(),
        forall|i: int|
            0 <= i < entries.len() ==> sizes_fit((#[trigger] entries[i]).0) && sizes_fit(
                entries[i].1,
            ),
        start + encoding_entries(entries, count).len() <= bytes.len(),
        bytes.subrange(start, start + encoding_entries(entries, count).len()) == encoding_entries(
            entries,
            count,
        ),
    ensures
        decode_entries(bytes, start, count) == (if entries_sorted(entries, count) {
            Ok::<(Seq<(CborModel, CborModel)>, int, int, int), SerializationError>(
                (
                    entries.take(count as int),
                    start + encoding_entries(entries, count).len(),
                    if count == 0 {
                        start
                    } else {
                        start + encoding_entries(entries, (count - 1) as nat).len()
                    },
                    if count == 0 {
                        start
                    } else {
                        start + encoding_entries(entries, (count - 1) as nat).len() + encoding(
                            entries[count - 1].0,
                        ).len()
                    },
                ),
            )
        } else {
            Err::<(Seq<(CborModel, CborModel)>, int, int, int), SerializationError>(unsorted())
        }),
    decreases entries, count,
{
    if count == 0 {
        assert(entries.take(0) =~= Seq::<(CborModel, CborModel)>::empty());
    } else {
        let earlier = (count - 1) as nat;
        let mid = start + encoding_entries(entries, earlier).len();
        let key_end = mid + encoding(entries[count - 1].0).len();
        lemma_last_entry_written(bytes, start, entries, count);
        lemma_decode_entries_of_encoding(bytes, start, entries, earlier);
        lemma_decode_encoding(bytes, mid, entries[count - 1].0);
        lemma_decode_encoding(bytes, key_end, entries[count - 1].1);
        lemma_encoding_nonempty(entries[count - 1].0);
        assert(entries.take(count as int) =~= entries.take(count - 1).push(entries[count - 1]));
        if count > 1 {
            lemma_last_entry_written(bytes, start, entries, earlier);
        }
        let step_sorted = keys_sorted(entries[count - 1].0) && keys_sorted(entries[count - 1].1)
            && (count > 1 ==> lex_lt(
            encoding(entries[count - 2].0),
            encoding(entries[count - 1].0),
        ));
        assert(entries_sorted(entries, count) == (entries_sorted(entries, earlier) && step_sorted));
    }
}

/// The encoding of the first `count` items looks at those items only.
pub proof fn lemma_encoding_items_agree(a: Seq<CborModel>, b: Seq<CborModel>, count: nat)
    requires
        count <= a.len(),
        count <= b.len(),
        forall|i: int| 0 <= i < count ==> a[i] == b[i],
    ensures
        encoding_items(a, count) == encoding_items(b, count),
    decreases count,
{
    if count > 0 {
        lemma_encoding_items_agree(a, b, (count - 1) as nat);
    }
}

/// The encoding of the first `count` entries looks at those entries only.
pub proof fn lemma_encoding_entries_agree(
    a: Seq<(CborModel, CborModel)>,
    b: Seq<(CborModel, CborModel)>,
    count: nat,
)
    requires
        count <= a.len(),
        count <= b.len(),
        forall|i: int| 0 <= i < count ==> a[i] == b[i],
    ensures
        encoding_entries(a, count) == encoding_entries(b, count),
    decreases count,
{
    if count > 0 {
        lemma_encoding_entries_agree(a, b, (count - 1) as nat);
    }
}

/// What holds of an item that was read at `pos`: it is canonical, and the bytes it was read
/// from are its encoding.
pub open spec fn item_sound(bytes: Seq<u8>, pos: int, value: CborModel, end: int) -> bool {
    &&& 0 <= pos < end <= bytes.len()
    &&& canonical(value)
    &&& encoding(value) == bytes.subrange(pos, end)
}

/// What holds of items that were read in a row from `start`.
pub open spec fn items_sound(
    bytes: Seq<u8>,
    start: int,
    count: nat,
    items: Seq<CborModel>,
    end: int,
) -> bool {
    &&& 0 <= start <= end <= bytes.len()
    &&& items.len() == count
    &&& forall|i: int| 0 <= i < count ==> canonical(#[trigger] items[i])
    &&& encoding_items(items, count) == bytes.subrange(start, end)
}

/// What holds of entries that were read in a row from `start`.
pub open spec fn entries_sound(
    bytes: Seq<u8>,
    start: int,
    count: nat,
    entries: Seq<(CborModel, CborModel)>,
    end: int,
    last_start: int,
    last_end: int,
) -> bool {
    &&& 0 <= start <= end <= bytes.len()
    &&& entries.len() == count
    &&& forall|i: int|
        0 <= i < count ==> canonical((#[trigger] entries[i]).0) && canonical(entries[i].1)
    &&& entries_sorted(entries, count)
    &&& encoding_entries(entries, count) == bytes.subrange(start, end)
    &&& count > 0 ==> start <= last_start <= last_end <= end && bytes.subrange(
        last_start,
        last_end,
    ) == encoding(entries[count - 1].0)
}

/// An item that reads is canonical, and was read from its own encoding.
#[verifier::rlimit(50)]
#[verifier::spinoff_prover]
pub proof fn lemma_decode_sound(bytes: Seq<u8>, pos: int)
    requires
        decode_item(bytes, pos) is Ok,
    ensures
        item_sound(bytes, pos, decode_item(bytes, pos).unwrap().0, decode_item(bytes, pos).unwrap().1),
    decreases bytes.len() - pos, 0nat,
{
    let (value, end) = decode_item(bytes, pos).unwrap();
    if 0 <= pos < bytes.len() && (bytes[pos] == 0xf4 || bytes[pos] == 0xf5) {
        assert(bytes.subrange(pos, end) =~= encoding(value));
    } else {
        lemma_head_of_decode_head(bytes, pos);
        let (major, n, after) = decode_head(bytes, pos).unwrap();
        let written = head(major, n);
        if major == MAJOR_UNSIGNED {
        } else if major == MAJOR_BYTES {
            assert(bytes.subrange(pos, end) =~= written + bytes.subrange(after, end));
        } else if major == MAJOR_TEXT {
            let content = bytes.subrange(after, end);
            decode_utf8_encode_utf8(content);
            assert(bytes.subrange(pos, end) =~= written + content);
        } else if major == MAJOR_ARRAY {
            lemma_decode_items_sound(bytes, after, n);
            let items = decode_items(bytes, after, n).unwrap().0;
            assert(bytes.subrange(pos, end) =~= written + bytes.subrange(after, end));
            assert(sizes_fit(value));
            assert(keys_sorted(value));
        } else if major == MAJOR_MAP {
            lemma_decode_entries_sound(bytes, after, n);
            let entries = decode_entries(bytes, after, n).unwrap().0;
            assert(bytes.subrange(pos, end) =~= written + bytes.subrange(after, end));
            assert(sizes_fit(value));
            assert(keys_sorted(value));
        }
    }
}

/// Items that read are canonical, and were read from their own encodings.
#[verifier::rlimit(50)]
#[verifier::spinoff_prover]
pub proof fn lemma_decode_items_sound(bytes: Seq<u8>, start: int, count: nat)
    requires
        0 <= start <= bytes.len(),
        decode_items(bytes, start, count) is Ok,
    ensures
        items_sound(
            bytes,
            start,
            count,
            decode_items(bytes, start, count).unwrap().0,
            decode_items(bytes, start, count).unwrap().1,
        ),
    decreases bytes.len() - start, count + 1,
{
    let (items, end) = decode_items(bytes, start, count).unwrap();
    if count == 0 {
        assert(bytes.subrange(start, end) =~= Seq::<u8>::empty());
    } else {
        let earlier = (count - 1) as nat;
        lemma_decode_items_sound(bytes, start, earlier);
        let (init, mid) = decode_items(bytes, start, earlier).unwrap();
        lemma_decode_sound(bytes, mid);
        let last = decode_item(bytes, mid).unwrap().0;
        assert(items == init.push(last));
        lemma_encoding_items_agree(items, init, earlier);
        assert(bytes.subrange(start, end) =~= bytes.subrange(start, mid) + bytes.subrange(mid, end));
        assert forall|i: int| 0 <= i < count implies canonical(#[trigger] items[i]) by {
            if i < earlier {
                assert(items[i] == init[i]);
            }
        }
    }
}

/// Entries that read are canonical and in key order, and were read from their own encodings.
#[verifier::rlimit(50)]
#[verifier::spinoff_prover]
pub proof fn lemma_decode_entries_sound(bytes: Seq<u8>, start: int, count: nat)
    requires
        0 <= start <= bytes.len(),
        decode_entries(bytes, start, count) is Ok,
    ensures
        entries_sound(
            bytes,
            start,
            count,
            decode_entries(bytes, start, count).unwrap().0,
            decode_entries(bytes, start, count).unwrap().1,
            decode_entries(bytes, start, count).unwrap().2,
            decode_entries(bytes, start, count).unwrap().3,
        ),
    decreases bytes.len() - start, count + 1,
{
    let (entries, end, last_start, last_end) = decode_entries(bytes, start, count).unwrap();
    if count == 0 {
        assert(bytes.subrange(start, end) =~= Seq::<u8>::empty());
    } else {
        let earlier = (count - 1) as nat;
        lemma_decode_entries_sound(bytes, start, earlier);
        let (init, mid, prev_start, prev_end) = decode_entries(bytes, start, earlier).unwrap();
        lemma_decode_sound(bytes, mid);
        let (key, key_end) = decode_item(bytes, mid).unwrap();
        lemma_decode_sound(bytes, key_end);
        let value = decode_item(bytes, key_end).unwrap().0;
        assert(entries == init.push((key, value)));
        lemma_encoding_entries_agree(entries, init, earlier);
        assert(bytes.subrange(start, end) =~= bytes.subrange(start, mid) + bytes.subrange(
            mid,
            key_end,
        ) + bytes.subrange(key_end, end));
        assert forall|i: int| 0 <= i < count implies canonical((#[trigger] entries[i]).0)
            && canonical(entries[i].1) by {
            if i < earlier {
                assert(entries[i] == init[i]);
            }
        }
        assert forall|i: int| 0 <= i < count implies keys_sorted((#[trigger] entries[i]).0)
            && keys_sorted(entries[i].1) by {
            assert(canonical(entries[i].0) && canonical(entries[i].1));
        }
        assert forall|i: int| 0 < i < count implies lex_lt(
            encoding(entries[i - 1].0),
            encoding((#[trigger] entries[i]).0),
        ) by {
            if i < earlier {
                assert(entries[i] == init[i]);
                assert(entries[i - 1] == init[i - 1]);
            } else {
                assert(entries[i - 1] == init[earlier - 1]);
            }
        }
    }
}

/// Reading inverts writing: the canonical encoding of a value reads back as that value, with
/// nothing left over.
pub proof fn law_decoding_inverts_encoding(value: CborModel)
    requires
        canonical(value),
    ensures
        decoding(encoding(value)) == Ok::<CborModel, SerializationError>(value),
{
    let bytes = encoding(value);
    assert(bytes.subrange(0, bytes.len() as int) =~= bytes);
    lemma_decode_encoding(bytes, 0, value);
}

/// A value whose lengths fit, but with a map key out of order somewhere, has an encoding
/// that does not read: validation reports the key.
pub proof fn law_unsorted_encoding_is_refused(value: CborModel)
    requires
        sizes_fit(value),
        !keys_sorted(value),
    ensures
        decoding(encoding(value)) == Err::<CborModel, SerializationError>(unsorted()),
{
    let bytes = encoding(value);
    assert(bytes.subrange(0, bytes.len() as int) =~= bytes);
    lemma_decode_encoding(bytes, 0, value);
}

/// Only canonical encodings read: bytes that read as a value are the encoding of that value,
/// and the value is canonical. So a change to an encoding that lengthens a head, makes a
/// length indefinite or puts map keys out of order leaves bytes that do not read.
pub proof fn law_decoding_accepts_only_encodings(bytes: Seq<u8>)
    requires
        decoding(bytes) is Ok,
    ensures
        canonical(decoding(bytes).unwrap()),
        encoding(decoding(bytes).unwrap()) == bytes,
{
    lemma_decode_sound(bytes, 0);
    assert(bytes.subrange(0, bytes.len() as int) =~= bytes);
}

/// Two canonical values with the same encoding are the same value.
pub proof fn law_encoding_is_injective(a: CborModel, b: CborModel)
    requires
        canonical(a),
        canonical(b),
        encoding(a) == encoding(b),
    ensures
        a == b,
{
    law_decoding_inverts_encoding(a);
    law_decoding_inverts_encoding(b);
}

/// Encoding is a function of the value: two values with the same model have the same
/// encoding, whoever writes them and whenever.
pub proof fn law_equal_values_encode_equally(first: CborValue, second: CborValue)
    requires
        first@ == second@,
    ensures
        encoding(first@) == encoding(second@),
{
}

} // verus!
