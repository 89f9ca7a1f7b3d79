//! Little-endian byte codecs used by the payload and snapshot encodings of
//! the example domains.
//!
//! Everything here is executable and verified: each writer appends exactly
//! the byte sequence its specification names, and each reader returns
//! exactly the value those bytes stand for.

use vstd::bytes::spec_u128_from_le_bytes;
use vstd::bytes::spec_u128_to_le_bytes;
use vstd::bytes::spec_u32_from_le_bytes;
use vstd::bytes::spec_u32_to_le_bytes;
use vstd::bytes::spec_u64_from_le_bytes;
use vstd::bytes::spec_u64_to_le_bytes;
use vstd::bytes::u128_from_le_bytes;
use vstd::bytes::u128_to_le_bytes;
use vstd::bytes::u32_from_le_bytes;
use vstd::bytes::u32_to_le_bytes;
use vstd::bytes::u64_from_le_bytes;
use vstd::bytes::u64_to_le_bytes;
use vstd::prelude::*;
use vstd::slice::slice_subrange;

verus! {

/// Appends the 4 little-endian bytes of `x`.
pub fn push_u32(out: &mut Vec<u8>, x: u32)
    ensures
        final(out)@ == old(out)@ + spec_u32_to_le_bytes(x),
{
    let mut bytes = u32_to_le_bytes(x);
    out.append(&mut bytes);
}

/// Appends the 8 little-endian bytes of `x`.
pub fn push_u64(out: &mut Vec<u8>, x: u64)
    ensures
        final(out)@ == old(out)@ + spec_u64_to_le_bytes(x),
{
    let mut bytes = u64_to_le_bytes(x);
    out.append(&mut bytes);
}

/// Appends the 16 little-endian bytes of `x`.
pub fn push_u128(out: &mut Vec<u8>, x: u128)
    ensures
        final(out)@ == old(out)@ + spec_u128_to_le_bytes(x),
{
    let mut bytes = u128_to_le_bytes(x);
    out.append(&mut bytes);
}

/// Reads the `u32` whose little-endian bytes sit at `offset`.
pub fn read_u32(bytes: &[u8], offset: usize) -> (r: u32)
    requires
        offset + 4 <= bytes@.len(),
    ensures
        r == spec_u32_from_le_bytes(bytes@.subrange(offset as int, offset as int + 4)),
{
    // Bind the length so that the end offset provably fits in usize.
    let _len = bytes.len();
    u32_from_le_bytes(slice_subrange(bytes, offset, offset + 4))
}

/// Reads the `u64` whose little-endian bytes sit at `offset`.
pub fn read_u64(bytes: &[u8], offset: usize) -> (r: u64)
    requires
        offset + 8 <= bytes@.len(),
    ensures
        r == spec_u64_from_le_bytes(bytes@.subrange(offset as int, offset as int + 8)),
{
    // Bind the length so that the end offset provably fits in usize.
    let _len = bytes.len();
    u64_from_le_bytes(slice_subrange(bytes, offset, offset + 8))
}

/// Reads the `u128` whose little-endian bytes sit at `offset`.
pub fn read_u128(bytes: &[u8], offset: usize) -> (r: u128)
    requires
        offset + 16 <= bytes@.len(),
    ensures
        r == spec_u128_from_le_bytes(bytes@.subrange(offset as int, offset as int + 16)),
{
    // Bind the length so that the end offset provably fits in usize.
    let _len = bytes.len();
    u128_from_le_bytes(slice_subrange(bytes, offset, offset + 16))
}

/// Reads the byte at `offset`.
pub fn read_u8(bytes: &[u8], offset: usize) -> (r: u8)
    requires
        offset < bytes@.len(),
    ensures
        r == bytes@[offset as int],
{
    *vstd::slice::slice_index_get(bytes, offset)
}

} // verus!
