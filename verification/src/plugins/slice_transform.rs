//! Grouping keys by collection: the prefix of a vector key is its
//! 4-byte collection id.

use crate::collection::{spec_vector_key_bytes, VectorKey};
use vstd::bytes::spec_u32_to_le_bytes;
use vstd::prelude::*;
use vstd::slice::slice_subrange;

verus! {

/// Keys of at least 4 bytes carry a collection prefix.
pub open spec fn in_collection_domain(key: Seq<u8>) -> bool {
    key.len() >= 4
}

/// The collection prefix of a key: its first 4 bytes.
pub open spec fn collection_prefix(key: Seq<u8>) -> Option<Seq<u8>> {
    if in_collection_domain(key) {
        Some(key.take(4))
    } else {
        None
    }
}

/// The collection prefix of `key`: its first 4 bytes, if it has that many.
pub fn extract_collection_prefix(key: &[u8]) -> (r: Option<&[u8]>)
    ensures
        match r {
            Some(p) => collection_prefix(key@) == Some(p@),
            None => collection_prefix(key@) is None,
        },
{
    if key.len() >= 4 {
        Some(slice_subrange(key, 0, 4))
    } else {
        None
    }
}

/// Whether `key` is long enough to carry a collection prefix.
pub fn is_in_collection_domain(key: &[u8]) -> (r: bool)
    ensures
        r == in_collection_domain(key@),
{
    key.len() >= 4
}

/// A key has a prefix exactly when it is in the collection domain, and the
/// prefix of a vector key is the encoding of its collection id: all vectors
/// of one collection share one prefix.
pub proof fn lemma_vector_key_prefix(k: VectorKey)
    ensures
        in_collection_domain(spec_vector_key_bytes(k)),
        collection_prefix(spec_vector_key_bytes(k)) == Some(spec_u32_to_le_bytes(k.collection_id.0)),
{
    crate::collection::lemma_vector_key_roundtrip(k);
    vstd::bytes::lemma_auto_spec_u32_to_from_le_bytes();
    assert(spec_vector_key_bytes(k).take(4) =~= spec_u32_to_le_bytes(k.collection_id.0));
}

} // verus!
