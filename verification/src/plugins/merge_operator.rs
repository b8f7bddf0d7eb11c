//! Merging partial updates into a stored vector value.
//!
//! An update operand starts with its kind: kind 0 replaces the whole value
//! with the rest of the operand; kind 1 carries a 4-byte little-endian
//! offset and then bytes to write at that offset, applied only when they fit
//! inside the value. Other kinds, and empty operands, change nothing. When
//! no value is stored yet, each operand replaces the result as a whole.

use crate::codec::le_read_u32;
use vstd::bytes::{lemma_auto_spec_u32_to_from_le_bytes, spec_u32_from_le_bytes, spec_u32_to_le_bytes};
use vstd::prelude::*;
use vstd::slice::{slice_subrange, slice_to_vec};

verus! {

/// The offset that a patch operand carries.
pub open spec fn patch_offset(op: Seq<u8>) -> int {
    spec_u32_from_le_bytes(op.subrange(1, 5)) as int
}

/// `acc` with the bytes of a patch operand written at its offset, when the
/// value has at least 4 bytes, the operand at least 5, and the bytes fit.
pub open spec fn apply_patch(acc: Seq<u8>, op: Seq<u8>) -> Seq<u8> {
    if acc.len() >= 4 && op.len() >= 5 && patch_offset(op) + (op.len() - 5) <= acc.len() {
        acc.take(patch_offset(op)) + op.skip(5) + acc.skip(patch_offset(op) + (op.len() - 5))
    } else {
        acc
    }
}

/// The result of one operand applied to `acc`.
pub open spec fn merge_step(existing_present: bool, acc: Seq<u8>, op: Seq<u8>) -> Seq<u8> {
    if !existing_present {
        op
    } else if op.len() == 0 {
        acc
    } else if op[0] == 0 {
        op.skip(1)
    } else if op[0] == 1 {
        apply_patch(acc, op)
    } else {
        acc
    }
}

/// The operands applied in order, starting from `acc`.
pub open spec fn merge_fold(existing_present: bool, acc: Seq<u8>, ops: Seq<Seq<u8>>) -> Seq<u8>
    decreases ops.len(),
{
    if ops.len() == 0 {
        acc
    } else {
        merge_step(existing_present, merge_fold(existing_present, acc, ops.drop_last()), ops.last())
    }
}

/// The merged value: the operands applied in order to the stored value, or
/// to the empty value when none is stored.
pub open spec fn merged(existing: Option<Seq<u8>>, ops: Seq<Seq<u8>>) -> Seq<u8> {
    match existing {
        Some(v) => merge_fold(true, v, ops),
        None => merge_fold(false, Seq::empty(), ops),
    }
}

/// Writes `src` into `dst` at `offset`.
fn copy_into(dst: &mut Vec<u8>, offset: usize, src: &[u8])
    requires
        offset + src@.len() <= old(dst)@.len(),
    ensures
        final(dst)@ == old(dst)@.take(offset as int) + src@ + old(dst)@.skip(
            offset + src@.len(),
        ),
{
    let len = dst.len();
    let mut i: usize = 0;
    while i < src.len()
        invariant
            0 <= i <= src@.len(),
            dst@.len() == len,
            offset + src@.len() <= old(dst)@.len(),
            dst@.len() == old(dst)@.len(),
            forall|j: int| 0 <= j < offset ==> dst@[j] == old(dst)@[j],
            forall|j: int| 0 <= j < i ==> dst@[offset + j] == src@[j],
            forall|j: int| offset + i <= j < dst@.len() ==> dst@[j] == old(dst)@[j],
        decreases src@.len() - i,
    {
        dst.set(offset + i, src[i]);
        i = i + 1;
    }
    assert(dst@ =~= old(dst)@.take(offset as int) + src@ + old(dst)@.skip(offset + src@.len()));
}

/// Merges `operands`, in order, into the value stored under `key`.
pub fn merge_vector_values(key: &[u8], existing: Option<&[u8]>, operands: &Vec<Vec<u8>>) -> (r:
    Option<Vec<u8>>)
    ensures
        r matches Some(v) && v@ == merged(
            match existing {
                Some(e) => Some(e@),
                None => None,
            },
            operands@.map_values(|o: Vec<u8>| o@),
        ),
{
    let ghost ops = operands@.map_values(|o: Vec<u8>| o@);
    let present = existing.is_some();
    let mut result: Vec<u8> = match existing {
        Some(v) => slice_to_vec(v),
        None => Vec::new(),
    };
    let ghost start = result@;
    let mut i: usize = 0;
    while i < operands.len()
        invariant
            0 <= i <= operands@.len(),
            ops == operands@.map_values(|o: Vec<u8>| o@),
            present == existing.is_some(),
            result@ == merge_fold(present, start, ops.take(i as int)),
        decreases operands@.len() - i,
    {
        let operand = &operands[i];
        let ghost acc = result@;
        if present {
            if operand.len() > 0 {
                let update_type = operand[0];
                if update_type == 0 {
                    let rest = slice_subrange(operand.as_slice(), 1, operand.len());
                    result = slice_to_vec(rest);
                    assert(result@ =~= operand@.skip(1));
                } else if update_type == 1 {
                    if result.len() >= 4 && operand.len() >= 5 {
                        let head = slice_subrange(operand.as_slice(), 1, 5);
                        let offset = le_read_u32(head) as usize;
                        assert(head@.take(4) =~= operand@.subrange(1, 5));
                        let n = operand.len() - 5;
                        if offset <= result.len() && n <= result.len() - offset {
                            let patch = slice_subrange(operand.as_slice(), 5, operand.len());
                            assert(patch@ =~= operand@.skip(5));
                            copy_into(&mut result, offset, patch);
                        }
                    }
                }
            }
        } else {
            result = slice_to_vec(operand.as_slice());
        }
        assert(ops.take(i + 1).drop_last() =~= ops.take(i as int));
        assert(ops.take(i + 1).last() == operand@);
        i = i + 1;
    }
    assert(ops.take(operands@.len() as int) =~= ops);
    Some(result)
}

/// A patch never changes the length of the stored value, and with no
/// operands the stored value is kept as it is.
pub proof fn lemma_patch_keeps_length(acc: Seq<u8>, op: Seq<u8>, v: Seq<u8>)
    ensures
        apply_patch(acc, op).len() == acc.len(),
        merged(Some(v), Seq::empty()) == v,
{
}

/// A replacing operand makes the rest of that operand the stored value,
/// whatever was stored before.
pub proof fn lemma_replace_sets_value(v: Seq<u8>, w: Seq<u8>)
    ensures
        merged(Some(v), seq![seq![0u8] + w]) == w,
{
    let ops = seq![seq![0u8] + w];
    assert(ops.drop_last() =~= Seq::<Seq<u8>>::empty());
    assert((seq![0u8] + w).skip(1) =~= w);
}

/// A patch that fits writes all of its bytes: merging the operand made of
/// kind 1, the 4-byte little-endian `offset` and the bytes `p` into a stored
/// value `v` of at least 4 bytes, with `offset + |p| <= |v|`, gives a value
/// of the same length holding `p` at `offset` and `v`'s bytes everywhere
/// else.
pub proof fn lemma_patch_writes_its_bytes(v: Seq<u8>, offset: u32, p: Seq<u8>)
    requires
        v.len() >= 4,
        offset + p.len() <= v.len(),
    ensures
        ({
            let m = merged(Some(v), seq![seq![1u8] + spec_u32_to_le_bytes(offset) + p]);
            &&& m.len() == v.len()
            &&& m.subrange(offset as int, offset + p.len()) == p
            &&& forall|i: int|
                0 <= i < v.len() && !(offset <= i < offset + p.len()) ==> #[trigger] m[i] == v[i]
        }),
{
    lemma_auto_spec_u32_to_from_le_bytes();
    let op = seq![1u8] + spec_u32_to_le_bytes(offset) + p;
    let ops = seq![op];
    assert(ops.drop_last() =~= Seq::<Seq<u8>>::empty());
    assert(op.subrange(1, 5) =~= spec_u32_to_le_bytes(offset));
    assert(patch_offset(op) == offset);
    assert(op.skip(5) =~= p);
    assert(op[0] == 1u8);
    assert(op.len() == 5 + p.len());
    assert(merge_fold(true, v, ops.drop_last()) == v);
    assert(ops.last() == op);
    assert(merge_step(true, v, op) == apply_patch(v, op));
    let m = merged(Some(v), ops);
    assert(m == v.take(offset as int) + p + v.skip(offset + p.len()));
    assert(m.subrange(offset as int, offset + p.len()) =~= p);
}

/// A patch that does not fit, or that reaches a stored value of fewer than
/// 4 bytes, leaves the value as it is.
pub proof fn lemma_patch_out_of_range_ignored(v: Seq<u8>, offset: u32, p: Seq<u8>)
    requires
        v.len() < 4 || offset + p.len() > v.len(),
    ensures
        merged(Some(v), seq![seq![1u8] + spec_u32_to_le_bytes(offset) + p]) == v,
{
    lemma_auto_spec_u32_to_from_le_bytes();
    let op = seq![1u8] + spec_u32_to_le_bytes(offset) + p;
    let ops = seq![op];
    assert(ops.drop_last() =~= Seq::<Seq<u8>>::empty());
    assert(op.subrange(1, 5) =~= spec_u32_to_le_bytes(offset));
    assert(patch_offset(op) == offset);
    assert(op[0] == 1u8);
    assert(op.len() == 5 + p.len());
    assert(merge_fold(true, v, ops.drop_last()) == v);
    assert(ops.last() == op);
    assert(merge_step(true, v, op) == apply_patch(v, op));
}

} // verus!
