//! Little-endian primitive readers over byte slices.
//!
//! Every multi-byte quantity in an XDF file is little-endian.  These readers
//! are verified against direct arithmetic specifications over the byte
//! sequence.

use vstd::prelude::*;

verus! {

/// Little-endian `u16` from the two bytes at `off`.
pub open spec fn le_u16_at(b: Seq<u8>, off: int) -> u16 {
    (b[off] as u16 + b[off + 1] as u16 * 0x100) as u16
}

/// Little-endian `u32` from the four bytes at `off`.
pub open spec fn le_u32_at(b: Seq<u8>, off: int) -> u32 {
    (b[off] as u32 + b[off + 1] as u32 * 0x100 + b[off + 2] as u32 * 0x1_0000 + b[off
        + 3] as u32 * 0x100_0000) as u32
}

/// Little-endian `u64` from the eight bytes at `off`.
pub open spec fn le_u64_at(b: Seq<u8>, off: int) -> u64 {
    (b[off] as u64 + b[off + 1] as u64 * 0x100 + b[off + 2] as u64 * 0x1_0000 + b[off
        + 3] as u64 * 0x100_0000 + b[off + 4] as u64 * 0x1_0000_0000 + b[off
        + 5] as u64 * 0x100_0000_0000 + b[off + 6] as u64 * 0x1_0000_0000_0000 + b[off
        + 7] as u64 * 0x100_0000_0000_0000) as u64
}

/// Little-endian unsigned integer of width `n` bytes at `off`, for the widths
/// the XDF length prefixes use (1, 4 or 8).
pub open spec fn le_uint_at(b: Seq<u8>, off: int, n: int) -> u64 {
    if n == 1 {
        b[off] as u64
    } else if n == 4 {
        le_u32_at(b, off) as u64
    } else {
        le_u64_at(b, off)
    }
}

/// Reads a little-endian `u16` at `off`.
pub fn read_le_u16(b: &[u8], off: usize) -> (r: u16)
    requires
        off + 2 <= b@.len(),
    ensures
        r == le_u16_at(b@, off as int),
{
    b[off] as u16 + b[off + 1] as u16 * 0x100
}

/// Reads a little-endian `u32` at `off`.
pub fn read_le_u32(b: &[u8], off: usize) -> (r: u32)
    requires
        off + 4 <= b@.len(),
    ensures
        r == le_u32_at(b@, off as int),
{
    b[off] as u32 + b[off + 1] as u32 * 0x100 + b[off + 2] as u32 * 0x1_0000 + b[off
        + 3] as u32 * 0x100_0000
}

/// Reads a little-endian `u64` at `off`.
pub fn read_le_u64(b: &[u8], off: usize) -> (r: u64)
    requires
        off + 8 <= b@.len(),
    ensures
        r == le_u64_at(b@, off as int),
{
    b[off] as u64 + b[off + 1] as u64 * 0x100 + b[off + 2] as u64 * 0x1_0000 + b[off
        + 3] as u64 * 0x100_0000 + b[off + 4] as u64 * 0x1_0000_0000 + b[off
        + 5] as u64 * 0x100_0000_0000 + b[off + 6] as u64 * 0x1_0000_0000_0000 + b[off
        + 7] as u64 * 0x100_0000_0000_0000
}

/// Reads a little-endian unsigned integer of width `n` at `off`; `n` must be
/// 1, 4 or 8.
pub fn read_le_uint(b: &[u8], off: usize, n: u8) -> (r: u64)
    requires
        n == 1 || n == 4 || n == 8,
        off + n <= b@.len(),
    ensures
        r == le_uint_at(b@, off as int, n as int),
{
    if n == 1 {
        b[off] as u64
    } else if n == 4 {
        read_le_u32(b, off) as u64
    } else {
        read_le_u64(b, off)
    }
}

} // verus!
