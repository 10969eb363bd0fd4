//! Incremental Merkle log over time-ordered entries.
//!
//! Entries are kept in ascending order of `(timestamp_us, nonce)`, so the root depends on the
//! set of entries only, never on the order in which they were inserted.

use crate::cbor::be_bytes;
use crate::crypto::{sha256, sha256_digest};
use crate::merkle_laws::{law_siblings_reconstruct_root, lemma_first_not_before, lemma_inserted};
use crate::serialization::push_be;
use crate::types::{zero_hash, Hash256};
use vstd::prelude::*;

verus! {

/// A Merkle leaf: timestamp and nonce order the log, `data_hash` commits to the payload.
#[derive(Debug, Clone, Copy, PartialEq, Eq, PartialOrd, Ord)]
pub struct Entry {
    /// Timestamp (microseconds since Unix epoch).
    pub timestamp_us: u64,
    /// Nonce that orders entries of the same microsecond.
    pub nonce: u64,
    /// Hash of the entry data.
    pub data_hash: Hash256,
}

/// The bytes that a leaf hash is taken over: both numbers as big-endian 64-bit words, then
/// the data hash.
pub open spec fn leaf_preimage(entry: Entry) -> Seq<u8> {
    be_bytes(entry.timestamp_us as nat, 8) + be_bytes(entry.nonce as nat, 8) + entry.data_hash@
}

/// The leaf hash of an entry.
pub open spec fn leaf_hash(entry: Entry) -> Seq<u8> {
    sha256_digest(leaf_preimage(entry))
}

/// The hash of an inner node over its two children.
pub open spec fn node_hash(left: Seq<u8>, right: Seq<u8>) -> Seq<u8> {
    sha256_digest(left + right)
}

/// The level above `level`: adjacent nodes are paired, and a last node without a neighbour
/// is paired with itself.
pub open spec fn next_level(level: Seq<Seq<u8>>) -> Seq<Seq<u8>> {
    Seq::new(
        ((level.len() + 1) / 2) as nat,
        |i: int|
            if 2 * i + 1 < level.len() {
                node_hash(level[2 * i], level[2 * i + 1])
            } else {
                node_hash(level[2 * i], level[2 * i])
            },
    )
}

/// The Merkle root over a list of leaf hashes: 32 zero bytes for no leaf, the leaf itself for
/// one, else the root of the level above.
pub open spec fn merkle_root(level: Seq<Seq<u8>>) -> Seq<u8>
    decreases level.len(),
{
    if level.len() == 0 {
        zero_hash()
    } else if level.len() == 1 {
        level[0]
    } else {
        merkle_root(next_level(level))
    }
}

/// The node next to `index` in `level`; a last node without a neighbour is its own sibling.
pub open spec fn sibling_of(level: Seq<Seq<u8>>, index: int) -> Seq<u8> {
    if index % 2 == 1 {
        level[index - 1]
    } else if index + 1 < level.len() {
        level[index + 1]
    } else {
        level[index]
    }
}

/// The co-path of the node at `index`, from the leaf level up to just below the root.
pub open spec fn proof_siblings(level: Seq<Seq<u8>>, index: int) -> Seq<Seq<u8>>
    decreases level.len(),
{
    if level.len() <= 1 {
        Seq::empty()
    } else {
        seq![sibling_of(level, index)] + proof_siblings(next_level(level), index / 2)
    }
}

/// The root that a leaf hash and a co-path lead to: at each level bit 0 of the index says
/// on which side the node stands.
pub open spec fn reconstructed_root(node: Seq<u8>, index: int, siblings: Seq<Seq<u8>>) -> Seq<u8>
    decreases siblings.len(),
{
    if siblings.len() == 0 {
        node
    } else {
        let parent = if index % 2 == 0 {
            node_hash(node, siblings[0])
        } else {
            node_hash(siblings[0], node)
        };
        reconstructed_root(parent, index / 2, siblings.skip(1))
    }
}

/// The byte strings that a list of hashes holds.
pub open spec fn hash_seq(hashes: Seq<Hash256>) -> Seq<Seq<u8>> {
    Seq::new(hashes.len(), |i: int| hashes[i]@)
}

/// The leaf hashes of a list of entries.
pub open spec fn leaf_hashes(entries: Seq<Entry>) -> Seq<Seq<u8>> {
    Seq::new(entries.len(), |i: int| leaf_hash(entries[i]))
}

/// The Merkle root over a list of entries.
pub open spec fn entries_root(entries: Seq<Entry>) -> Seq<u8> {
    merkle_root(leaf_hashes(entries))
}

/// Whether `a` comes strictly before `b` in the order of the log.
pub open spec fn key_lt(a: Entry, b: Entry) -> bool {
    a.timestamp_us < b.timestamp_us || (a.timestamp_us == b.timestamp_us && a.nonce < b.nonce)
}

/// Whether two entries have the same `(timestamp_us, nonce)`.
pub open spec fn same_key(a: Entry, b: Entry) -> bool {
    a.timestamp_us == b.timestamp_us && a.nonce == b.nonce
}

/// Whether the entries stand in strictly ascending key order; no key occurs twice then.
pub open spec fn strictly_sorted(entries: Seq<Entry>) -> bool {
    forall|i: int, j: int| 0 <= i < j < entries.len() ==> key_lt(entries[i], entries[j])
}

/// The first position at or after `from` whose entry does not come before `entry`.
pub open spec fn first_not_before(entries: Seq<Entry>, entry: Entry, from: int) -> int
    decreases entries.len() - from,
{
    if from < 0 || from >= entries.len() || !key_lt(entries[from], entry) {
        from
    } else {
        first_not_before(entries, entry, from + 1)
    }
}

/// Where `entry` belongs in a sorted list.
pub open spec fn insert_position(entries: Seq<Entry>, entry: Entry) -> int {
    first_not_before(entries, entry, 0)
}

/// The sorted list after `entry` went in: it replaces the entry with its key, if there is
/// one, and else takes its place in the order.
pub open spec fn inserted(entries: Seq<Entry>, entry: Entry) -> Seq<Entry> {
    let at = insert_position(entries, entry);
    if 0 <= at < entries.len() && same_key(entries[at], entry) {
        entries.update(at, entry)
    } else {
        entries.insert(at, entry)
    }
}

impl Entry {
    /// Create a new entry that commits to `data` by its SHA-256 hash.
    pub fn new(timestamp_us: u64, nonce: u64, data: &[u8]) -> (entry: Entry)
        ensures
            entry.timestamp_us == timestamp_us,
            entry.nonce == nonce,
            entry.data_hash@ == sha256_digest(data@),
    {
        Entry { timestamp_us, nonce, data_hash: sha256(data) }
    }

    /// Compute the hash of this entry (the Merkle tree leaf).
    pub fn hash(&self) -> (hash: Hash256)
        ensures
            hash@ == leaf_hash(*self),
    {
        let mut buf: Vec<u8> = Vec::new();
        push_be(self.timestamp_us, 8, &mut buf);
        push_be(self.nonce, 8, &mut buf);
        append_hash(&mut buf, &self.data_hash);
        assert(buf@ =~= leaf_preimage(*self));
        sha256(buf.as_slice())
    }
}

fn append_hash(out: &mut Vec<u8>, hash: &Hash256)
    ensures
        final(out)@ == old(out)@ + hash@,
{
    let ghost before = out@;
    let mut i: usize = 0;
    while i < 32
        invariant
            i <= 32,
            out@ == before + hash@.subrange(0, i as int),
        decreases 32 - i,
    {
        out.push(hash[i]);
        i += 1;
        assert(out@ =~= before + hash@.subrange(0, i as int));
    }
    assert(hash@.subrange(0, 32) =~= hash@);
}

/// Whether two hashes hold the same bytes.
pub fn hash_eq(a: &Hash256, b: &Hash256) -> (same: bool)
    ensures
        same == (a@ == b@),
{
    let mut i: usize = 0;
    while i < 32
        invariant
            i <= 32,
            forall|j: int| 0 <= j < i ==> a@[j] == b@[j],
        decreases 32 - i,
    {
        if a[i] != b[i] {
            return false;
        }
        i += 1;
    }
    assert(a@ =~= b@);
    true
}

/// Hash two nodes together: the SHA-256 hash of the left node followed by the right node.
pub fn hash_pair(left: &Hash256, right: &Hash256) -> (parent: Hash256)
    ensures
        parent@ == node_hash(left@, right@),
{
    let mut buf: Vec<u8> = Vec::new();
    append_hash(&mut buf, left);
    append_hash(&mut buf, right);
    assert(buf@ =~= left@ + right@);
    sha256(buf.as_slice())
}

/// The level above `level`, computed pair by pair.
fn pair_up(level: &Vec<Hash256>) -> (above: Vec<Hash256>)
    ensures
        hash_seq(above@) == next_level(hash_seq(level@)),
        above@.len() == (level@.len() + 1) / 2,
{
    let count = level.len() / 2 + level.len() % 2;
    let mut above: Vec<Hash256> = Vec::new();
    let mut k: usize = 0;
    while k < count
        invariant
            k <= count,
            count == (level.len() + 1) / 2,
            above@.len() == k,
            forall|j: int| 0 <= j < k ==> above@[j]@ == next_level(hash_seq(level@))[j],
        decreases count - k,
    {
        assert(2 * k + 1 <= level.len());
        let parent = if 2 * k + 1 < level.len() {
            hash_pair(&level[2 * k], &level[2 * k + 1])
        } else {
            hash_pair(&level[2 * k], &level[2 * k])
        };
        above.push(parent);
        k += 1;
    }
    assert(hash_seq(above@) =~= next_level(hash_seq(level@)));
    above
}

fn copy_hashes(hashes: &[Hash256]) -> (copy: Vec<Hash256>)
    ensures
        copy@ == hashes@,
{
    let mut copy: Vec<Hash256> = Vec::new();
    let mut i: usize = 0;
    while i < hashes.len()
        invariant
            i <= hashes.len(),
            copy@ == hashes@.subrange(0, i as int),
        decreases hashes.len() - i,
    {
        copy.push(hashes[i]);
        i += 1;
        assert(copy@ =~= hashes@.subrange(0, i as int));
    }
    assert(hashes@.subrange(0, hashes@.len() as int) =~= hashes@);
    copy
}

/// Compute the Merkle root from leaf hashes.
pub fn compute_merkle_root(leaves: &[Hash256]) -> (root: Hash256)
    ensures
        root@ == merkle_root(hash_seq(leaves@)),
{
    if leaves.len() == 0 {
        let zero = [0u8; 32];
        assert(zero@ =~= zero_hash());
        return zero;
    }
    let mut level = copy_hashes(leaves);
    while level.len() > 1
        invariant
            level.len() >= 1,
            merkle_root(hash_seq(level@)) == merkle_root(hash_seq(leaves@)),
        decreases level.len(),
    {
        level = pair_up(&level);
    }
    level[0]
}

/// Compute the sibling hashes of the leaf at `index`, bottom-up.
pub fn compute_proof_siblings(leaves: &[Hash256], index: usize) -> (siblings: Vec<Hash256>)
    requires
        index < leaves.len(),
    ensures
        hash_seq(siblings@) == proof_siblings(hash_seq(leaves@), index as int),
{
    let mut siblings: Vec<Hash256> = Vec::new();
    let mut level = copy_hashes(leaves);
    let mut current = index;
    assert(hash_seq(siblings@) =~= Seq::<Seq<u8>>::empty());
    while level.len() > 1
        invariant
            current < level.len(),
            proof_siblings(hash_seq(leaves@), index as int) == hash_seq(siblings@) + proof_siblings(
                hash_seq(level@),
                current as int,
            ),
        decreases level.len(),
    {
        let sibling = if current % 2 == 1 {
            level[current - 1]
        } else if current + 1 < level.len() {
            level[current + 1]
        } else {
            level[current]
        };
        let ghost before = hash_seq(siblings@);
        siblings.push(sibling);
        assert(hash_seq(siblings@) =~= before.push(sibling@));
        assert(before + (seq![sibling@] + proof_siblings(
            next_level(hash_seq(level@)),
            current as int / 2,
        )) =~= before.push(sibling@) + proof_siblings(
            next_level(hash_seq(level@)),
            current as int / 2,
        ));
        level = pair_up(&level);
        current = current / 2;
    }
    assert(hash_seq(siblings@) + Seq::<Seq<u8>>::empty() =~= hash_seq(siblings@));
    siblings
}

/// Reconstruct the Merkle root from a leaf hash and its sibling hashes.
pub fn reconstruct_root(leaf_hash: Hash256, index: usize, siblings: &[Hash256]) -> (root: Hash256)
    ensures
        root@ == reconstructed_root(leaf_hash@, index as int, hash_seq(siblings@)),
{
    let mut current = leaf_hash;
    let mut at = index;
    let mut i: usize = 0;
    assert(hash_seq(siblings@).skip(0) =~= hash_seq(siblings@));
    while i < siblings.len()
        invariant
            i <= siblings.len(),
            reconstructed_root(leaf_hash@, index as int, hash_seq(siblings@)) == reconstructed_root(
                current@,
                at as int,
                hash_seq(siblings@).skip(i as int),
            ),
        decreases siblings.len() - i,
    {
        let ghost rest = hash_seq(siblings@).skip(i as int);
        assert(rest[0] == siblings@[i as int]@);
        assert(rest.skip(1) =~= hash_seq(siblings@).skip(i + 1));
        current = if at % 2 == 0 {
            hash_pair(&current, &siblings[i])
        } else {
            hash_pair(&siblings[i], &current)
        };
        at = at / 2;
        i += 1;
    }
    current
}

fn key_before(a: &Entry, b: &Entry) -> (before: bool)
    ensures
        before == key_lt(*a, *b),
{
    a.timestamp_us < b.timestamp_us || (a.timestamp_us == b.timestamp_us && a.nonce < b.nonce)
}

fn hash_entries(entries: &Vec<Entry>) -> (hashes: Vec<Hash256>)
    ensures
        hash_seq(hashes@) == leaf_hashes(entries@),
        hashes@.len() == entries@.len(),
{
    let mut hashes: Vec<Hash256> = Vec::new();
    let mut i: usize = 0;
    while i < entries.len()
        invariant
            i <= entries.len(),
            hashes@.len() == i,
            forall|j: int| 0 <= j < i ==> hashes@[j]@ == leaf_hash(entries@[j]),
        decreases entries.len() - i,
    {
        hashes.push(entries[i].hash());
        i += 1;
    }
    assert(hash_seq(hashes@) =~= leaf_hashes(entries@));
    hashes
}

fn copy_entries(entries: &Vec<Entry>) -> (copy: Vec<Entry>)
    ensures
        copy@ == entries@,
{
    let mut copy: Vec<Entry> = Vec::new();
    let mut i: usize = 0;
    while i < entries.len()
        invariant
            i <= entries.len(),
            copy@ == entries@.subrange(0, i as int),
        decreases entries.len() - i,
    {
        copy.push(entries[i]);
        i += 1;
        assert(copy@ =~= entries@.subrange(0, i as int));
    }
    assert(entries@.subrange(0, entries@.len() as int) =~= entries@);
    copy
}

/// Incremental Merkle log: the entries in ascending order of `(timestamp_us, nonce)`, each
/// key once.
pub struct MerkleTree {
    entries: Vec<Entry>,
}

impl View for MerkleTree {
    type V = Seq<Entry>;

    /// The entries of the log, in ascending key order.
    closed spec fn view(&self) -> Seq<Entry> {
        self.entries@
    }
}

impl MerkleTree {
    #[verifier::type_invariant]
    spec fn ordered(self) -> bool {
        strictly_sorted(self.entries@)
    }

    /// Create a new empty Merkle tree.
    pub fn new() -> (tree: MerkleTree)
        ensures
            tree@ == Seq::<Entry>::empty(),
    {
        MerkleTree { entries: Vec::new() }
    }

    /// Insert an entry into the tree. An entry that has the key of `entry` is replaced.
    pub fn insert(&mut self, entry: Entry)
        ensures
            final(self)@ == inserted(old(self)@, entry),
            strictly_sorted(old(self)@),
            strictly_sorted(final(self)@),
            forall|x: Entry|
                #![trigger final(self)@.contains(x)]
                final(self)@.contains(x) <==> (x == entry || (old(self)@.contains(x) && !same_key(
                    x,
                    entry,
                ))),
    {
        proof {
            use_type_invariant(&*self);
            lemma_inserted(self.entries@, entry);
            lemma_first_not_before(self.entries@, entry, 0);
        }
        let mut at: usize = 0;
        while at < self.entries.len() && key_before(&self.entries[at], &entry)
            invariant
                at <= self.entries@.len(),
                self.entries@ == old(self).entries@,
                first_not_before(self.entries@, entry, 0) == first_not_before(
                    self.entries@,
                    entry,
                    at as int,
                ),
            decreases self.entries@.len() - at,
        {
            at += 1;
        }
        let mut updated = copy_entries(&self.entries);
        if at < updated.len() && updated[at].timestamp_us == entry.timestamp_us
            && updated[at].nonce == entry.nonce {
            updated.set(at, entry);
        } else {
            updated.insert(at, entry);
        }
        self.entries = updated;
    }

    /// Get the number of entries.
    pub fn len(&self) -> (count: usize)
        ensures
            count == self@.len(),
    {
        self.entries.len()
    }

    /// Check if the tree is empty.
    pub fn is_empty(&self) -> (empty: bool)
        ensures
            empty == (self@.len() == 0),
    {
        self.entries.len() == 0
    }

    /// Compute the Merkle root over the leaf hashes of the entries, in key order.
    ///
    /// The root of an empty tree is the zero hash, and the root of a tree with one entry is
    /// that entry's leaf hash.
    pub fn root(&self) -> (root: Hash256)
        ensures
            root@ == entries_root(self@),
            self@.len() == 0 ==> root@ == zero_hash(),
            self@.len() == 1 ==> root@ == leaf_hash(self@[0]),
    {
        let leaves = hash_entries(&self.entries);
        compute_merkle_root(leaves.as_slice())
    }

    /// Generate a Merkle proof for the entry with the given key.
    ///
    /// Returns a proof exactly when the log holds an entry with that key. The proof names the
    /// entry, its position in key order, its co-path and the root of the log, and it
    /// verifies against that root.
    pub fn generate_proof(&self, timestamp_us: u64, nonce: u64) -> (generated: Option<MerkleProof>)
        ensures
            generated is Some <==> holds_key(self@, timestamp_us, nonce),
            generated is Some ==> generated.unwrap().leaf.timestamp_us == timestamp_us,
            generated is Some ==> generated.unwrap().leaf.nonce == nonce,
            generated is Some ==> proof_of(self@, generated.unwrap()),
            generated is Some ==> proof_accepts(generated.unwrap(), entries_root(self@)),
    {
        let mut index: usize = 0;
        while index < self.entries.len() && !(self.entries[index].timestamp_us == timestamp_us
            && self.entries[index].nonce == nonce)
            invariant
                index <= self.entries@.len(),
                forall|i: int|
                    0 <= i < index ==> !((#[trigger] self.entries@[i]).timestamp_us == timestamp_us
                        && self.entries@[i].nonce == nonce),
            decreases self.entries@.len() - index,
        {
            index += 1;
        }
        if index >= self.entries.len() {
            return None;
        }
        let hashes = hash_entries(&self.entries);
        let siblings = compute_proof_siblings(hashes.as_slice(), index);
        let root = self.root();
        proof {
            law_siblings_reconstruct_root(leaf_hashes(self.entries@), index as int);
        }
        Some(MerkleProof { leaf: self.entries[index], leaf_index: index, siblings, root })
    }

    /// Clear all entries, for the next checkpoint window.
    pub fn clear(&mut self)
        ensures
            final(self)@ == Seq::<Entry>::empty(),
    {
        self.entries = Vec::new();
    }

    /// Get all entries in ascending key order.
    pub fn entries(&self) -> (entries: Vec<&Entry>)
        ensures
            entries@.len() == self@.len(),
            forall|i: int| 0 <= i < self@.len() ==> *(#[trigger] entries@[i]) == self@[i],
            strictly_sorted(self@),
    {
        proof {
            use_type_invariant(self);
        }
        let mut entries: Vec<&Entry> = Vec::new();
        let mut i: usize = 0;
        while i < self.entries.len()
            invariant
                i <= self.entries@.len(),
                entries@.len() == i,
                forall|j: int| 0 <= j < i ==> *(#[trigger] entries@[j]) == self.entries@[j],
            decreases self.entries@.len() - i,
        {
            entries.push(&self.entries[i]);
            i += 1;
        }
        entries
    }
}

impl Default for MerkleTree {
    fn default() -> (tree: MerkleTree)
        ensures
            tree@ == Seq::<Entry>::empty(),
    {
        MerkleTree::new()
    }
}

/// A Merkle proof for a specific entry.
#[derive(Debug, Clone)]
pub struct MerkleProof {
    pub leaf: Entry,
    pub leaf_index: usize,
    pub siblings: Vec<Hash256>,
    pub root: Hash256,
}

/// Whether the list holds an entry with the given key.
pub open spec fn holds_key(entries: Seq<Entry>, timestamp_us: u64, nonce: u64) -> bool {
    exists|i: int|
        0 <= i < entries.len() && (#[trigger] entries[i]).timestamp_us == timestamp_us
            && entries[i].nonce == nonce
}

/// Whether `proof` is the proof of one entry of the log `entries`: it names the entry, its
/// position in key order, its co-path from leaf to root, and the root of the log.
pub open spec fn proof_of(entries: Seq<Entry>, proof: MerkleProof) -> bool {
    &&& proof.leaf_index < entries.len()
    &&& proof.leaf == entries[proof.leaf_index as int]
    &&& hash_seq(proof.siblings@) == proof_siblings(leaf_hashes(entries), proof.leaf_index as int)
    &&& proof.root@ == entries_root(entries)
}

/// Whether a proof verifies against `expected`: it must carry `expected` as its root, and its
/// leaf and co-path must lead to `expected`.
pub open spec fn proof_accepts(proof: MerkleProof, expected: Seq<u8>) -> bool {
    &&& proof.root@ == expected
    &&& reconstructed_root(
        leaf_hash(proof.leaf),
        proof.leaf_index as int,
        hash_seq(proof.siblings@),
    ) == expected
}

impl MerkleProof {
    /// Verify this proof against a known root.
    pub fn verify(&self, expected_root: &Hash256) -> (accepted: bool)
        ensures
            accepted == proof_accepts(*self, expected_root@),
    {
        if !hash_eq(&self.root, expected_root) {
            return false;
        }
        let computed = reconstruct_root(self.leaf.hash(), self.leaf_index, self.siblings.as_slice());
        hash_eq(&computed, expected_root)
    }
}

} // verus!
