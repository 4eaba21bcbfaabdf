//! Little-endian integers at fixed offsets of a byte buffer.

use vstd::prelude::*;
use vstd::slice::slice_subrange;
use byteorder::ByteOrder;

verus! {

/// The 16-bit little-endian value of the bytes at `i` and `i + 1`.
pub open spec fn le16(b: Seq<u8>, i: int) -> int {
    b[i] as int + 256 * b[i + 1] as int
}

/// The 32-bit little-endian value of the four bytes starting at `i`.
pub open spec fn le32(b: Seq<u8>, i: int) -> int {
    le16(b, i) + 65536 * le16(b, i + 2)
}

/// Relies on byteorder's `LittleEndian::read_u16`: the first two bytes,
/// least significant first (it panics on fewer than two bytes).
#[verifier::external_body]
fn read_u16_le(buf: &[u8]) -> (r: u16)
    requires
        buf@.len() >= 2,
    ensures
        r as int == le16(buf@, 0),
{
    byteorder::LittleEndian::read_u16(buf)
}

/// Relies on byteorder's `LittleEndian::read_u32`: the first four bytes,
/// least significant first (it panics on fewer than four bytes).
#[verifier::external_body]
fn read_u32_le(buf: &[u8]) -> (r: u32)
    requires
        buf@.len() >= 4,
    ensures
        r as int == le32(buf@, 0),
{
    byteorder::LittleEndian::read_u32(buf)
}

/// The 16-bit little-endian value stored at `off`.
pub fn u16_at(b: &[u8], off: usize) -> (r: u16)
    requires
        off + 2 <= b@.len(),
    ensures
        r as int == le16(b@, off as int),
{
    // the length is a usize, so `off + 2` cannot overflow
    let _n = b.len();
    let s = slice_subrange(b, off, off + 2);
    read_u16_le(s)
}

/// The 32-bit little-endian value stored at `off`.
pub fn u32_at(b: &[u8], off: usize) -> (r: u32)
    requires
        off + 4 <= b@.len(),
    ensures
        r as int == le32(b@, off as int),
{
    // the length is a usize, so `off + 4` cannot overflow
    let _n = b.len();
    let s = slice_subrange(b, off, off + 4);
    read_u32_le(s)
}

} // verus!
