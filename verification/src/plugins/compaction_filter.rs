//! The marker of a deleted vector, and the compaction filter that drops
//! deleted vectors.

use vstd::prelude::*;
use vstd::slice::slice_to_vec;

verus! {

/// The bytes of the word `TOMBSTONE`, which mark a deleted vector.
pub open spec fn tombstone_marker() -> Seq<u8> {
    seq![84u8, 79u8, 77u8, 66u8, 83u8, 84u8, 79u8, 78u8, 69u8]
}

/// `value` begins with the tombstone marker.
pub open spec fn starts_with_tombstone(value: Seq<u8>) -> bool {
    value.len() >= tombstone_marker().len() && value.take(tombstone_marker().len() as int)
        == tombstone_marker()
}

/// What the compaction filter keeps of a value: nothing for a tombstone,
/// the value itself otherwise.
pub open spec fn filtered(value: Seq<u8>) -> Option<Seq<u8>> {
    if starts_with_tombstone(value) {
        None
    } else {
        Some(value)
    }
}

/// The marker written in place of a deleted vector.
pub fn tombstone() -> (r: Vec<u8>)
    ensures
        r@ == tombstone_marker(),
{
    vec![84u8, 79u8, 77u8, 66u8, 83u8, 84u8, 79u8, 78u8, 69u8]
}

/// Whether `bytes` begin with the tombstone marker.
pub fn is_tombstone(bytes: &[u8]) -> (r: bool)
    ensures
        r == starts_with_tombstone(bytes@),
{
    let marker = tombstone();
    if bytes.len() < marker.len() {
        return false;
    }
    let mut i: usize = 0;
    while i < marker.len()
        invariant
            marker@ == tombstone_marker(),
            bytes@.len() >= marker@.len(),
            0 <= i <= marker@.len(),
            forall|j: int| 0 <= j < i ==> bytes@[j] == marker@[j],
        decreases marker@.len() - i,
    {
        if bytes[i] != marker[i] {
            assert(bytes@.take(9)[i as int] != tombstone_marker()[i as int]);
            return false;
        }
        i = i + 1;
    }
    assert(bytes@.take(9) =~= tombstone_marker());
    true
}

/// The compaction filter: at any level and for any key, drops values that
/// are tombstones and keeps a copy of any other value.
pub fn create_vector_compaction_filter() -> (f: impl Fn(u32, &[u8], &[u8]) -> Option<Vec<u8>>)
    ensures
        forall|level: u32, key: &[u8], value: &[u8]| f.requires((level, key, value)),
        forall|level: u32, key: &[u8], value: &[u8], r: Option<Vec<u8>>|
            f.ensures((level, key, value), r) ==> match r {
                Some(v) => filtered(value@) == Some(v@),
                None => filtered(value@) is None,
            },
        forall|level: u32, key: &[u8], value: &[u8], r: Option<Vec<u8>>|
            f.ensures((level, key, value), r) ==> (r is None <==> starts_with_tombstone(value@)) && (
            r matches Some(v) ==> v@ == value@),
{
    move |_level: u32, _key: &[u8], value: &[u8]| -> (r: Option<Vec<u8>>)
        ensures
            match r {
                Some(v) => filtered(value@) == Some(v@),
                None => filtered(value@) is None,
            },
            r is None <==> starts_with_tombstone(value@),
            r matches Some(v) ==> v@ == value@,
        {
            if is_tombstone(value) {
                None
            } else {
                Some(slice_to_vec(value))
            }
        }
}

/// The marker written for a deleted vector is recognised as one, and
/// compaction drops it.
pub proof fn lemma_tombstone_is_dropped()
    ensures
        starts_with_tombstone(tombstone_marker()),
        filtered(tombstone_marker()) is None,
{
    assert(tombstone_marker().take(9) =~= tombstone_marker());
}

/// Compaction keeps every value that does not begin with the nine bytes
/// of `TOMBSTONE` whole and unchanged, and drops every value that does.
pub proof fn lemma_filter_keeps_live_values(value: Seq<u8>)
    ensures
        !(value.len() >= 9 && value.take(9) == seq![84u8, 79u8, 77u8, 66u8, 83u8, 84u8, 79u8, 78u8, 69u8])
            ==> filtered(value) == Some(value),
        (value.len() >= 9 && value.take(9) == seq![84u8, 79u8, 77u8, 66u8, 83u8, 84u8, 79u8, 78u8, 69u8])
            ==> filtered(value) is None,
{
}

} // verus!
