//! Keys of vectors inside collections and their byte encodings.
//!
//! A collection id is encoded as 4 little-endian bytes; a vector key is the
//! collection id followed by the vector id in 8 big-endian bytes, so that in
//! the byte order of stored keys the vectors of one collection sort by id.

use crate::codec::{
    le_read_u32, le_write_u32, spec_u64_from_be_bytes, spec_u64_to_be_bytes, u64_from_be_bytes,
    u64_to_be_bytes,
};
use vstd::bytes::{
    lemma_auto_spec_u32_to_from_le_bytes, lemma_auto_spec_u64_to_from_le_bytes,
    spec_u32_from_le_bytes, spec_u32_to_le_bytes, spec_u64_from_le_bytes, spec_u64_to_le_bytes,
    spec_u64_to_le_bytes_to_open,
};
use vstd::prelude::*;

verus! {

/// The id of a collection of vectors.
#[derive(Debug, Clone, PartialEq, Eq, Hash, Structural)]
pub struct CollectionId(pub u32);

impl CollectionId {
    pub fn new(id: u32) -> (r: Self)
        ensures
            r.0 == id,
    {
        CollectionId(id)
    }

    /// The id as 4 little-endian bytes.
    pub fn to_bytes(&self) -> (r: [u8; 4])
        ensures
            r@ == spec_u32_to_le_bytes(self.0),
    {
        let mut bytes = [0u8; 4];
        le_write_u32(&mut bytes, self.0);
        bytes
    }

    /// Reads an id from the first 4 bytes, little-endian; `None` when fewer
    /// than 4 bytes are given.
    pub fn from_bytes(bytes: &[u8]) -> (r: Option<Self>)
        ensures
            bytes@.len() >= 4 ==> r == Some(CollectionId(spec_u32_from_le_bytes(bytes@.take(4)))),
            bytes@.len() < 4 ==> r.is_none(),
    {
        if bytes.len() >= 4 {
            let id = le_read_u32(bytes);
            Some(CollectionId(id))
        } else {
            None
        }
    }
}

/// The key of one vector: its collection and its id.
#[derive(Debug, Clone, PartialEq, Eq, Structural)]
pub struct VectorKey {
    pub collection_id: CollectionId,
    pub vector_id: u64,
}

/// The 12 bytes of a vector key: collection id little-endian, then vector id
/// big-endian.
pub open spec fn spec_vector_key_bytes(k: VectorKey) -> Seq<u8> {
    spec_u32_to_le_bytes(k.collection_id.0) + spec_u64_to_be_bytes(k.vector_id)
}

/// The vector key that the first 12 bytes of `b` encode.
pub open spec fn spec_vector_key_from(b: Seq<u8>) -> VectorKey {
    VectorKey {
        collection_id: CollectionId(spec_u32_from_le_bytes(b.take(4))),
        vector_id: spec_u64_from_be_bytes(b.subrange(4, 12)),
    }
}

impl VectorKey {
    pub fn new(collection_id: CollectionId, vector_id: u64) -> (r: Self)
        ensures
            r.collection_id == collection_id,
            r.vector_id == vector_id,
    {
        VectorKey { collection_id, vector_id }
    }

    pub fn to_bytes(&self) -> (r: Vec<u8>)
        ensures
            r@ == spec_vector_key_bytes(*self),
    {
        let mut bytes: Vec<u8> = Vec::with_capacity(12);
        let cid = self.collection_id.to_bytes();
        let vid = u64_to_be_bytes(self.vector_id);
        proof {
            lemma_auto_spec_u32_to_from_le_bytes();
            lemma_auto_spec_u64_to_from_le_bytes();
        }
        let mut i: usize = 0;
        while i < 4
            invariant
                0 <= i <= 4,
                cid@.len() == 4,
                bytes@ == cid@.take(i as int),
            decreases 4 - i,
        {
            bytes.push(cid[i]);
            i = i + 1;
            assert(bytes@ =~= cid@.take(i as int));
        }
        let mut j: usize = 0;
        while j < 8
            invariant
                0 <= j <= 8,
                cid@.len() == 4,
                vid@.len() == 8,
                bytes@ == cid@ + vid@.take(j as int),
            decreases 8 - j,
        {
            bytes.push(vid[j]);
            j = j + 1;
            assert(bytes@ =~= cid@ + vid@.take(j as int));
        }
        assert(vid@.take(8) =~= vid@);
        bytes
    }

    /// Decodes the first 12 bytes; `None` when fewer than 12 are given.
    pub fn from_bytes(bytes: &[u8]) -> (r: Option<Self>)
        ensures
            bytes@.len() >= 12 ==> r == Some(spec_vector_key_from(bytes@)),
            bytes@.len() < 12 ==> r.is_none(),
    {
        if bytes.len() >= 12 {
            let collection_id = match CollectionId::from_bytes(bytes) {
                Some(c) => c,
                None => return None,
            };
            let arr: [u8; 8] = [
                bytes[4],
                bytes[5],
                bytes[6],
                bytes[7],
                bytes[8],
                bytes[9],
                bytes[10],
                bytes[11],
            ];
            assert(arr@ =~= bytes@.subrange(4, 12));
            let vector_id = u64_from_be_bytes(arr);
            Some(VectorKey { collection_id, vector_id })
        } else {
            None
        }
    }
}

/// What is kept about a vector besides its components: its tags, the time
/// it was written, and whether it has been deleted.
#[derive(Debug, Clone)]
pub struct VectorMetadata {
    pub tags: Vec<String>,
    pub timestamp: u64,
    pub deleted: bool,
}

/// Decoding the bytes of a collection id gives the id back.
pub proof fn lemma_collection_id_roundtrip(id: CollectionId)
    ensures
        spec_u32_from_le_bytes(spec_u32_to_le_bytes(id.0).take(4)) == id.0,
        spec_u32_to_le_bytes(id.0).len() == 4,
{
    lemma_auto_spec_u32_to_from_le_bytes();
    assert(spec_u32_to_le_bytes(id.0).take(4) =~= spec_u32_to_le_bytes(id.0));
}

/// Decoding the bytes of a vector key gives the key back, and the encoding is
/// 12 bytes long.
pub proof fn lemma_vector_key_roundtrip(k: VectorKey)
    ensures
        spec_vector_key_bytes(k).len() == 12,
        spec_vector_key_from(spec_vector_key_bytes(k)) == k,
{
    lemma_auto_spec_u32_to_from_le_bytes();
    lemma_auto_spec_u64_to_from_le_bytes();
    let b = spec_vector_key_bytes(k);
    let le = spec_u32_to_le_bytes(k.collection_id.0);
    let be = spec_u64_to_be_bytes(k.vector_id);
    assert(b.take(4) =~= le);
    assert(b.subrange(4, 12) =~= be);
    assert(be.reverse() =~= spec_u64_to_le_bytes(k.vector_id));
}

/// Encoding the key read from 12 bytes gives those 12 bytes back: the
/// encoding is onto.
pub proof fn lemma_vector_key_bytes_onto(b: Seq<u8>)
    requires
        b.len() == 12,
    ensures
        spec_vector_key_bytes(spec_vector_key_from(b)) == b,
{
    lemma_auto_spec_u32_to_from_le_bytes();
    lemma_auto_spec_u64_to_from_le_bytes();
    let mid = b.subrange(4, 12);
    assert(mid.reverse().len() == 8);
    let x = spec_u64_from_le_bytes(mid.reverse());
    assert(spec_u64_to_le_bytes(x) == mid.reverse());
    assert(spec_u64_to_le_bytes(x).reverse() =~= mid);
    assert(spec_u32_to_le_bytes(spec_u32_from_le_bytes(b.take(4))) == b.take(4));
    assert(b.take(4) + mid =~= b);
}

/// Whether `key` starts with the 4-byte encoding of `collection_id`.
pub open spec fn key_in_collection(key: Seq<u8>, collection_id: CollectionId) -> bool {
    key.len() >= 4 && key.take(4) == spec_u32_to_le_bytes(collection_id.0)
}

/// Whether a stored key belongs to the collection `collection_id`: whether
/// it starts with the collection's 4-byte prefix.
pub fn belongs_to_collection(key: &[u8], collection_id: &CollectionId) -> (r: bool)
    ensures
        r == key_in_collection(key@, *collection_id),
{
    let prefix = collection_id.to_bytes();
    if key.len() < 4 {
        return false;
    }
    let mut i: usize = 0;
    while i < 4
        invariant
            0 <= i <= 4,
            key@.len() >= 4,
            prefix@ == spec_u32_to_le_bytes(collection_id.0),
            forall|j: int| 0 <= j < i ==> key@[j] == prefix@[j],
        decreases 4 - i,
    {
        if key[i] != prefix[i] {
            assert(key@.take(4)[i as int] != prefix@[i as int]);
            return false;
        }
        i = i + 1;
    }
    proof {
        lemma_auto_spec_u32_to_from_le_bytes();
    }
    assert(key@.take(4) =~= prefix@);
    true
}

/// Different vector keys have different encodings, so vectors of different
/// collections, or with different ids, never share a stored key.
pub proof fn lemma_vector_key_bytes_injective(k1: VectorKey, k2: VectorKey)
    requires
        spec_vector_key_bytes(k1) == spec_vector_key_bytes(k2),
    ensures
        k1 == k2,
{
    lemma_vector_key_roundtrip(k1);
    lemma_vector_key_roundtrip(k2);
}

/// The stored key of a vector belongs to a collection exactly when the
/// vector is in that collection.
pub proof fn lemma_key_in_own_collection_only(k: VectorKey, c: CollectionId)
    ensures
        key_in_collection(spec_vector_key_bytes(k), c) <==> k.collection_id == c,
{
    lemma_vector_key_roundtrip(k);
    lemma_auto_spec_u32_to_from_le_bytes();
    let b = spec_vector_key_bytes(k);
    assert(b.take(4) =~= spec_u32_to_le_bytes(k.collection_id.0));
    if key_in_collection(b, c) {
        assert(spec_u32_from_le_bytes(spec_u32_to_le_bytes(c.0)) == c.0);
    }
}

/// Whether `a` comes before `b` in lexicographic byte order, looking from
/// position `i` on: the first differing byte decides, and a proper prefix
/// comes first.
pub open spec fn bytes_lt_from(a: Seq<u8>, b: Seq<u8>, i: int) -> bool
    decreases a.len() - i,
{
    if i >= a.len() {
        i < b.len()
    } else if i >= b.len() {
        false
    } else if a[i] != b[i] {
        a[i] < b[i]
    } else {
        bytes_lt_from(a, b, i + 1)
    }
}

/// Whether `a` comes before `b` in lexicographic byte order, the order in
/// which byte strings such as `Vec<u8>` compare.
pub open spec fn bytes_lt(a: Seq<u8>, b: Seq<u8>) -> bool {
    bytes_lt_from(a, b, 0)
}

proof fn lemma_bytes_lt_after_prefix(p: Seq<u8>, x: Seq<u8>, y: Seq<u8>, j: int)
    requires
        0 <= j,
    ensures
        bytes_lt_from(p + x, p + y, p.len() + j) == bytes_lt_from(x, y, j),
    decreases x.len() - j,
{
    if j < x.len() && j < y.len() {
        assert((p + x)[p.len() + j] == x[j]);
        assert((p + y)[p.len() + j] == y[j]);
        if x[j] == y[j] {
            lemma_bytes_lt_after_prefix(p, x, y, j + 1);
        }
    }
}

proof fn lemma_bytes_lt_through_prefix(p: Seq<u8>, x: Seq<u8>, y: Seq<u8>, i: int)
    requires
        0 <= i <= p.len(),
    ensures
        bytes_lt_from(p + x, p + y, i) == bytes_lt_from(x, y, 0),
    decreases p.len() - i,
{
    if i < p.len() {
        assert((p + x)[i] == p[i]);
        assert((p + y)[i] == p[i]);
        lemma_bytes_lt_through_prefix(p, x, y, i + 1);
    } else {
        lemma_bytes_lt_after_prefix(p, x, y, 0);
    }
}

/// A common prefix does not change the byte order of two strings.
pub proof fn lemma_bytes_lt_common_prefix(p: Seq<u8>, x: Seq<u8>, y: Seq<u8>)
    ensures
        bytes_lt(p + x, p + y) == bytes_lt(x, y),
{
    lemma_bytes_lt_through_prefix(p, x, y, 0);
}

/// The byte of `x` at bit offset `shift`.
pub open spec fn byte_of(x: u64, shift: u64) -> u8 {
    ((x >> shift) & 0xff) as u8
}

proof fn lemma_u64_lt_by_bytes(a: u64, b: u64)
    by (bit_vector)
    ensures
        (a < b) == (if byte_of(a, 56) != byte_of(b, 56) {
            byte_of(a, 56) < byte_of(b, 56)
        } else if byte_of(a, 48) != byte_of(b, 48) {
            byte_of(a, 48) < byte_of(b, 48)
        } else if byte_of(a, 40) != byte_of(b, 40) {
            byte_of(a, 40) < byte_of(b, 40)
        } else if byte_of(a, 32) != byte_of(b, 32) {
            byte_of(a, 32) < byte_of(b, 32)
        } else if byte_of(a, 24) != byte_of(b, 24) {
            byte_of(a, 24) < byte_of(b, 24)
        } else if byte_of(a, 16) != byte_of(b, 16) {
            byte_of(a, 16) < byte_of(b, 16)
        } else if byte_of(a, 8) != byte_of(b, 8) {
            byte_of(a, 8) < byte_of(b, 8)
        } else if byte_of(a, 0) != byte_of(b, 0) {
            byte_of(a, 0) < byte_of(b, 0)
        } else {
            false
        }),
{
}

/// Big-endian bytes order as the numbers do.
pub proof fn lemma_be_bytes_order(a: u64, b: u64)
    ensures
        bytes_lt(spec_u64_to_be_bytes(a), spec_u64_to_be_bytes(b)) == (a < b),
{
    spec_u64_to_le_bytes_to_open(a);
    spec_u64_to_le_bytes_to_open(b);
    let sa = spec_u64_to_be_bytes(a);
    let sb = spec_u64_to_be_bytes(b);
    assert(a >> 0u64 == a && b >> 0u64 == b) by (bit_vector);
    let la = spec_u64_to_le_bytes(a);
    let lb = spec_u64_to_le_bytes(b);
    assert(la.len() == 8 && lb.len() == 8);
    assert(forall|i: int| 0 <= i < 8 ==> sa[i] == la[7 - i] && sb[i] == lb[7 - i]);
    assert(sa =~= seq![
        byte_of(a, 56), byte_of(a, 48), byte_of(a, 40), byte_of(a, 32),
        byte_of(a, 24), byte_of(a, 16), byte_of(a, 8), byte_of(a, 0),
    ]);
    assert(sb =~= seq![
        byte_of(b, 56), byte_of(b, 48), byte_of(b, 40), byte_of(b, 32),
        byte_of(b, 24), byte_of(b, 16), byte_of(b, 8), byte_of(b, 0),
    ]);
    lemma_u64_lt_by_bytes(a, b);
    reveal_with_fuel(bytes_lt_from, 9);
}

/// Within one collection, stored keys sort by vector id: both keys are 12
/// bytes long, and one comes before the other in byte order exactly when
/// its vector id is the smaller.
pub proof fn lemma_vector_keys_order_by_id(a: VectorKey, b: VectorKey)
    requires
        a.collection_id == b.collection_id,
    ensures
        spec_vector_key_bytes(a).len() == 12,
        spec_vector_key_bytes(b).len() == 12,
        bytes_lt(spec_vector_key_bytes(a), spec_vector_key_bytes(b)) == (a.vector_id < b.vector_id),
{
    lemma_vector_key_roundtrip(a);
    lemma_vector_key_roundtrip(b);
    lemma_bytes_lt_common_prefix(
        spec_u32_to_le_bytes(a.collection_id.0),
        spec_u64_to_be_bytes(a.vector_id),
        spec_u64_to_be_bytes(b.vector_id),
    );
    lemma_be_bytes_order(a.vector_id, b.vector_id);
}

} // verus!
