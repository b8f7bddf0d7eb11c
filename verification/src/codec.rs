//! Fixed-width integer encodings used by keys, plugins and file formats.

use byteorder::{ByteOrder, LittleEndian};
use vstd::bytes::{spec_u32_from_le_bytes, spec_u32_to_le_bytes, spec_u64_from_le_bytes, spec_u64_to_le_bytes};
use vstd::prelude::*;

verus! {

/// The 8 big-endian bytes of `x`.
pub open spec fn spec_u64_to_be_bytes(x: u64) -> Seq<u8> {
    spec_u64_to_le_bytes(x).reverse()
}

/// The `u64` whose 8 big-endian bytes are `s`.
pub open spec fn spec_u64_from_be_bytes(s: Seq<u8>) -> u64 {
    spec_u64_from_le_bytes(s.reverse())
}

/// Calls `byteorder::LittleEndian::write_u32`, which stores `n` in the first
/// four bytes of the buffer, least significant byte first.
#[verifier::external_body]
pub(crate) fn le_write_u32(buf: &mut [u8; 4], n: u32)
    ensures
        final(buf)@ == spec_u32_to_le_bytes(n),
{
    LittleEndian::write_u32(buf, n)
}

/// Calls `byteorder::LittleEndian::read_u32`, which reads the first four bytes
/// of `buf` as a little-endian `u32` (and panics on fewer than four bytes).
#[verifier::external_body]
pub(crate) fn le_read_u32(buf: &[u8]) -> (r: u32)
    requires
        buf@.len() >= 4,
    ensures
        r == spec_u32_from_le_bytes(buf@.take(4)),
{
    LittleEndian::read_u32(buf)
}

/// Calls `u64::to_be_bytes`: the bytes of `x`, most significant first.
#[verifier::external_body]
pub(crate) fn u64_to_be_bytes(x: u64) -> (r: [u8; 8])
    ensures
        r@ == spec_u64_to_be_bytes(x),
{
    x.to_be_bytes()
}

/// Calls `u64::from_be_bytes`: the `u64` whose bytes, most significant
/// first, are `b`.
#[verifier::external_body]
pub(crate) fn u64_from_be_bytes(b: [u8; 8]) -> (r: u64)
    ensures
        r == spec_u64_from_be_bytes(b@),
{
    u64::from_be_bytes(b)
}

/// Calls `byteorder::LittleEndian::read_i32`, which reads the first four
/// bytes of `buf` as a little-endian two's-complement `i32` (and panics on
/// fewer than four bytes).
#[verifier::external_body]
pub(crate) fn le_read_i32(buf: &[u8]) -> (r: i32)
    requires
        buf@.len() >= 4,
    ensures
        r == spec_i32_from_le_bytes(buf@.take(4)),
{
    LittleEndian::read_i32(buf)
}

/// The `i32` whose little-endian two's-complement bytes are `s`.
pub open spec fn spec_i32_from_le_bytes(s: Seq<u8>) -> i32 {
    spec_u32_from_le_bytes(s) as i32
}

} // verus!
