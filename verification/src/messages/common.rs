//! Slicing and integer reading over received buffers.

use vstd::prelude::*;
use crate::bytes::{copy_range, from_le16, from_le32, from_le64, read_u16_le, read_u32_le, read_u64_le};

verus! {

/// Returns `buffer[from..=to]`: both bounds are included.
pub fn get_bytes_from_slice(buffer: &[u8], from: usize, to: usize) -> (r: Vec<u8>)
    requires
        from <= to,
        to < buffer.len(),
    ensures
        r@ == buffer@.subrange(from as int, to + 1),
{
    copy_range(buffer, from, to + 1)
}

/// Returns the little-endian `u64` whose first byte is at `position`.
pub fn get_u64_at_pos(buffer: &[u8], position: usize) -> (r: Result<u64, &str>)
    requires
        position + 8 <= buffer.len(),
    ensures
        r == Ok::<u64, &str>(from_le64(buffer@.subrange(position as int, position + 8))),
{
    let slice = get_bytes_from_slice(buffer, position, position + 7);
    Ok(read_u64_le(slice.as_slice(), 0))
}

/// Returns the little-endian `u32` whose first byte is at `position`.
pub fn get_u32_at_pos(buffer: &[u8], position: usize) -> (r: Result<u32, &str>)
    requires
        position + 4 <= buffer.len(),
    ensures
        r == Ok::<u32, &str>(from_le32(buffer@.subrange(position as int, position + 4))),
{
    let slice = get_bytes_from_slice(buffer, position, position + 3);
    Ok(read_u32_le(slice.as_slice(), 0))
}

/// Returns the little-endian `u16` whose first byte is at `position`.
pub fn get_u16_at_pos(buffer: &[u8], position: usize) -> (r: Result<u16, &str>)
    requires
        position + 2 <= buffer.len(),
    ensures
        r == Ok::<u16, &str>(from_le16(buffer@.subrange(position as int, position + 2))),
{
    let slice = get_bytes_from_slice(buffer, position, position + 1);
    Ok(read_u16_le(slice.as_slice(), 0))
}

} // verus!
