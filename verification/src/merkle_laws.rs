//! Laws of the Merkle log: proofs lead to the root, and the root does not depend on the order
//! of insertion.

use crate::merkle::{
    entries_root, first_not_before, insert_position, inserted, key_lt, merkle_root, next_level,
    node_hash, proof_siblings, reconstructed_root, same_key, sibling_of, strictly_sorted, Entry,
};
use vstd::prelude::*;

verus! {

/// A co-path leads to the root: from the node at `index` of a level, its siblings reconstruct
/// the Merkle root of that level.
pub proof fn law_siblings_reconstruct_root(level: Seq<Seq<u8>>, index: int)
    requires
        0 <= index < level.len(),
    ensures
        reconstructed_root(level[index], index, proof_siblings(level, index)) == merkle_root(level),
    decreases level.len(),
{
    if level.len() > 1 {
        let siblings = proof_siblings(level, index);
        let above = next_level(level);
        let parent = if index % 2 == 0 {
            node_hash(level[index], siblings[0])
        } else {
            node_hash(siblings[0], level[index])
        };
        assert(siblings[0] == sibling_of(level, index));
        assert(siblings.skip(1) =~= proof_siblings(above, index / 2));
        assert(parent == above[index / 2]);
        law_siblings_reconstruct_root(above, index / 2);
    }
}

/// What `first_not_before` finds: every entry from `from` up to the position comes before
/// `entry`, and the entry at the position, if there is one, does not.
pub proof fn lemma_first_not_before(entries: Seq<Entry>, entry: Entry, from: int)
    requires
        0 <= from <= entries.len(),
    ensures
        from <= first_not_before(entries, entry, from) <= entries.len(),
        forall|i: int|
            from <= i < first_not_before(entries, entry, from) ==> key_lt(
                #[trigger] entries[i],
                entry,
            ),
        first_not_before(entries, entry, from) < entries.len() ==> !key_lt(
            entries[first_not_before(entries, entry, from)],
            entry,
        ),
    decreases entries.len() - from,
{
    if from < entries.len() && key_lt(entries[from], entry) {
        lemma_first_not_before(entries, entry, from + 1);
    }
}

/// Inserting into a sorted list keeps it sorted, and the list then holds the new entry and
/// every old entry with another key, nothing else.
pub proof fn lemma_inserted(entries: Seq<Entry>, entry: Entry)
    requires
        strictly_sorted(entries),
    ensures
        strictly_sorted(inserted(entries, entry)),
        forall|x: Entry|
            #![trigger inserted(entries, entry).contains(x)]
            #![trigger entries.contains(x)]
            inserted(entries, entry).contains(x) <==> (x == entry || (entries.contains(x)
                && !same_key(x, entry))),
{
    let at = insert_position(entries, entry);
    let after = inserted(entries, entry);
    lemma_first_not_before(entries, entry, 0);
    assert forall|j: int| at <= j < entries.len() implies !key_lt(
        #[trigger] entries[j],
        entry,
    ) by {
        if at < j {
            assert(key_lt(entries[at], entries[j]));
        }
    }
    if at < entries.len() && same_key(entries[at], entry) {
        assert forall|i: int, j: int| 0 <= i < j < after.len() implies key_lt(
            after[i],
            after[j],
        ) by {
            assert(key_lt(entries[i], entries[j]));
        }
        assert forall|x: Entry|
            after.contains(x) <==> (x == entry || (entries.contains(x) && !same_key(
                x,
                entry,
            ))) by {
            if after.contains(x) {
                let i = choose|i: int| 0 <= i < after.len() && after[i] == x;
                if i != at {
                    assert(entries[i] == x);
                    if i < at {
                        assert(key_lt(entries[i], entries[at]));
                    } else {
                        assert(key_lt(entries[at], entries[i]));
                    }
                }
            }
            if x == entry {
                assert(after[at] == x);
            }
            if entries.contains(x) && !same_key(x, entry) {
                let i = choose|i: int| 0 <= i < entries.len() && entries[i] == x;
                assert(after[i] == x);
            }
        }
    } else {
        assert forall|i: int, j: int| 0 <= i < j < after.len() implies key_lt(
            after[i],
            after[j],
        ) by {
            if j < at {
                assert(key_lt(entries[i], entries[j]));
            } else if j == at {
                assert(key_lt(entries[i], entry));
            } else if i < at {
                assert(key_lt(entries[i], entries[j - 1]));
            } else if i == at {
                assert(!key_lt(entries[j - 1], entry));
                if at < j - 1 {
                    assert(key_lt(entries[at], entries[j - 1]));
                }
            } else {
                assert(key_lt(entries[i - 1], entries[j - 1]));
            }
        }
        assert forall|x: Entry|
            after.contains(x) <==> (x == entry || (entries.contains(x) && !same_key(
                x,
                entry,
            ))) by {
            if after.contains(x) {
                let i = choose|i: int| 0 <= i < after.len() && after[i] == x;
                if i < at {
                    assert(entries[i] == x);
                } else if i > at {
                    assert(entries[i - 1] == x);
                    assert(!key_lt(entries[i - 1], entry));
                    if at < i - 1 {
                        assert(key_lt(entries[at], entries[i - 1]));
                    }
                }
            }
            if x == entry {
                assert(after[at] == x);
            }
            if entries.contains(x) && !same_key(x, entry) {
                let i = choose|i: int| 0 <= i < entries.len() && entries[i] == x;
                if i < at {
                    assert(after[i] == x);
                } else {
                    assert(after[i + 1] == x);
                }
            }
        }
    }
}

/// Two sorted lists that hold the same entries are the same list.
pub proof fn lemma_sorted_lists_equal(a: Seq<Entry>, b: Seq<Entry>)
    requires
        strictly_sorted(a),
        strictly_sorted(b),
        forall|x: Entry| a.contains(x) <==> b.contains(x),
    ensures
        a == b,
    decreases a.len(),
{
    if a.len() == 0 {
        if b.len() > 0 {
            assert(b.contains(b[0]));
        }
        assert(a =~= b);
    } else {
        let top = a.last();
        assert(a.contains(top));
        assert(b.contains(top));
        let at = choose|i: int| 0 <= i < b.len() && b[i] == top;
        if at != b.len() - 1 {
            let beyond = b.last();
            assert(key_lt(b[at], beyond));
            assert(b.contains(beyond));
            let back = choose|i: int| 0 <= i < a.len() && a[i] == beyond;
            if back != a.len() - 1 {
                assert(key_lt(a[back], a[a.len() - 1]));
            }
        }
        let a_rest = a.drop_last();
        let b_rest = b.drop_last();
        assert forall|x: Entry| a_rest.contains(x) <==> b_rest.contains(x) by {
            if a_rest.contains(x) {
                let i = choose|i: int| 0 <= i < a_rest.len() && a_rest[i] == x;
                assert(a[i] == x);
                assert(key_lt(a[i], a[a.len() - 1]));
                assert(a.contains(x));
                let j = choose|j: int| 0 <= j < b.len() && b[j] == x;
                assert(b_rest[j] == x);
            }
            if b_rest.contains(x) {
                let j = choose|j: int| 0 <= j < b_rest.len() && b_rest[j] == x;
                assert(b[j] == x);
                assert(key_lt(b[j], b[b.len() - 1]));
                assert(b.contains(x));
                let i = choose|i: int| 0 <= i < a.len() && a[i] == x;
                assert(a_rest[i] == x);
            }
        }
        assert forall|i: int, j: int| 0 <= i < j < a_rest.len() implies key_lt(
            a_rest[i],
            a_rest[j],
        ) by {
            assert(key_lt(a[i], a[j]));
        }
        assert forall|i: int, j: int| 0 <= i < j < b_rest.len() implies key_lt(
            b_rest[i],
            b_rest[j],
        ) by {
            assert(key_lt(b[i], b[j]));
        }
        lemma_sorted_lists_equal(a_rest, b_rest);
        assert(a =~= a_rest.push(top));
        assert(b =~= b_rest.push(top));
    }
}

/// The log after the entries of `batch` went into `log`, first to last.
pub open spec fn inserted_all(log: Seq<Entry>, batch: Seq<Entry>) -> Seq<Entry>
    decreases batch.len(),
{
    if batch.len() == 0 {
        log
    } else {
        inserted(inserted_all(log, batch.drop_last()), batch.last())
    }
}

/// Whether no two entries of the batch share a key.
pub open spec fn distinct_keys(batch: Seq<Entry>) -> bool {
    forall|i: int, j: int| 0 <= i < j < batch.len() ==> !same_key(batch[i], batch[j])
}

/// A batch with distinct keys, put into an empty log, gives a sorted log that holds exactly
/// the entries of the batch.
pub proof fn lemma_inserted_all(batch: Seq<Entry>)
    requires
        distinct_keys(batch),
    ensures
        strictly_sorted(inserted_all(Seq::empty(), batch)),
        forall|x: Entry|
            #![trigger inserted_all(Seq::empty(), batch).contains(x)]
            #![trigger batch.contains(x)]
            inserted_all(Seq::empty(), batch).contains(x) <==> batch.contains(x),
    decreases batch.len(),
{
    let log = inserted_all(Seq::empty(), batch);
    if batch.len() == 0 {
    } else {
        let earlier = batch.drop_last();
        let before = inserted_all(Seq::empty(), earlier);
        assert forall|i: int, j: int| 0 <= i < j < earlier.len() implies !same_key(
            earlier[i],
            earlier[j],
        ) by {
            assert(!same_key(batch[i], batch[j]));
        }
        lemma_inserted_all(earlier);
        lemma_inserted(before, batch.last());
        let last = batch.last();
        assert(log == inserted(before, last));
        assert forall|x: Entry| log.contains(x) <==> batch.contains(x) by {
            assert(inserted(before, last).contains(x) <==> (x == last || (before.contains(x)
                && !same_key(x, last))));
            assert(before.contains(x) <==> earlier.contains(x));
            if log.contains(x) {
                if x == last {
                    assert(batch[batch.len() - 1] == x);
                } else {
                    let i = choose|i: int| 0 <= i < earlier.len() && earlier[i] == x;
                    assert(batch[i] == x);
                }
            }
            if batch.contains(x) {
                let i = choose|i: int| 0 <= i < batch.len() && batch[i] == x;
                if i < batch.len() - 1 {
                    assert(earlier[i] == x);
                    assert(earlier.contains(x));
                    assert(!same_key(batch[i], batch[batch.len() - 1]));
                }
            }
        }
    }
}

/// The root does not depend on the order of insertion: two batches that hold the same
/// entries, each key once, give the same log and so the same root, in whatever order each
/// batch is inserted.
pub proof fn law_insertion_order_independent(first: Seq<Entry>, second: Seq<Entry>)
    requires
        distinct_keys(first),
        distinct_keys(second),
        forall|x: Entry| first.contains(x) <==> second.contains(x),
    ensures
        inserted_all(Seq::empty(), first) == inserted_all(Seq::empty(), second),
        entries_root(inserted_all(Seq::empty(), first)) == entries_root(
            inserted_all(Seq::empty(), second),
        ),
{
    lemma_inserted_all(first);
    lemma_inserted_all(second);
    let a = inserted_all(Seq::empty(), first);
    let b = inserted_all(Seq::empty(), second);
    assert forall|x: Entry| a.contains(x) <==> b.contains(x) by {
        assert(a.contains(x) <==> first.contains(x));
        assert(first.contains(x) <==> second.contains(x));
        assert(b.contains(x) <==> second.contains(x));
    }
    lemma_sorted_lists_equal(
        inserted_all(Seq::empty(), first),
        inserted_all(Seq::empty(), second),
    );
}

} // verus!
