//! Variable-length (LEB128) integer decoding.
//!
//! The upstream protocol encodes small integers as base-128 varints: each
//! byte carries seven payload bits, the high bit marks continuation. The
//! scene resolver scans attribute blobs with this decoder at every offset.

use vstd::prelude::*;

verus! {

/// Value of the varint whose remaining bytes start at `i`, given the bits
/// accumulated so far. `None` when the buffer ends inside the varint, or when
/// the value would not fit in 64 bits.
pub open spec fn spec_varint_from(data: Seq<u8>, i: int, shift: u64, acc: u64) -> Option<u64>
    decreases data.len() - i,
{
    if i < 0 || i >= data.len() || shift >= 64 {
        None
    } else {
        let b = data[i];
        let low = b & 0x7f;
        if shift == 63 && low > 1 {
            None
        } else {
            let acc2 = acc | ((low as u64) << shift);
            if b < 0x80 {
                Some(acc2)
            } else {
                spec_varint_from(data, i + 1, (shift + 7) as u64, acc2)
            }
        }
    }
}

/// Value of the varint starting at byte offset `off`, if one is encoded there.
pub open spec fn spec_varint(data: Seq<u8>, off: int) -> Option<u64> {
    spec_varint_from(data, off, 0, 0)
}

/// Decodes the varint starting at `offset`, if the buffer holds a complete,
/// in-range encoding there.
pub fn varint_decode_at(data: &Vec<u8>, offset: usize) -> (r: Option<u64>)
    ensures
        r == spec_varint(data@, offset as int),
{
    let mut i: usize = offset;
    let mut shift: u64 = 0;
    let mut acc: u64 = 0;
    loop
        invariant
            offset <= i,
            spec_varint(data@, offset as int) == spec_varint_from(data@, i as int, shift, acc),
        decreases data@.len() - i,
    {
        if i >= data.len() || shift >= 64 {
            return None;
        }
        let b = data[i];
        let low = b & 0x7f;
        if shift == 63 && low > 1 {
            return None;
        }
        acc = acc | ((low as u64) << shift);
        if b < 0x80 {
            return Some(acc);
        }
        i = i + 1;
        shift = shift + 7;
    }
}

} // verus!
