//! Field codec: bounds-checked extraction of fixed-width integers and byte
//! ranges from a byte slice. Every offset access of the higher parsers goes
//! through these functions; an out-of-range access yields `None` instead of
//! a panic.

use vstd::prelude::*;

verus! {

/// Big-endian 16-bit value of `s[i], s[i+1]`.
pub open spec fn be16(s: Seq<u8>, i: int) -> u16 {
    ((s[i] as u16) << 8) | (s[i + 1] as u16)
}

/// Big-endian 32-bit value of the four bytes starting at `i`.
pub open spec fn be32(s: Seq<u8>, i: int) -> u32 {
    ((s[i] as u32) << 24) | ((s[i + 1] as u32) << 16) | ((s[i + 2] as u32) << 8) | (s[i
        + 3] as u32)
}

/// Big-endian 48-bit value of the six bytes starting at `i`, as a `u64`.
pub open spec fn be48(s: Seq<u8>, i: int) -> u64 {
    ((s[i] as u64) << 40) | ((s[i + 1] as u64) << 32) | ((s[i + 2] as u64) << 24) | ((s[i
        + 3] as u64) << 16) | ((s[i + 4] as u64) << 8) | (s[i + 5] as u64)
}

/// Big-endian 64-bit value of the eight bytes starting at `i`.
pub open spec fn be64(s: Seq<u8>, i: int) -> u64 {
    ((s[i] as u64) << 56) | ((s[i + 1] as u64) << 48) | ((s[i + 2] as u64) << 40) | ((s[i
        + 3] as u64) << 32) | ((s[i + 4] as u64) << 24) | ((s[i + 5] as u64) << 16) | ((s[i
        + 6] as u64) << 8) | (s[i + 7] as u64)
}

/// Little-endian 32-bit value of the four bytes starting at `i`.
pub open spec fn le32(s: Seq<u8>, i: int) -> u32 {
    ((s[i + 3] as u32) << 24) | ((s[i + 2] as u32) << 16) | ((s[i + 1] as u32) << 8) | (s[
        i] as u32)
}

/// The byte at offset `i`, or `None` when the slice is too short.
pub fn read_u8(data: &[u8], i: usize) -> (r: Option<u8>)
    ensures
        i < data@.len() ==> r == Some(data@[i as int]),
        i >= data@.len() ==> r is None,
{
    if i < data.len() {
        Some(data[i])
    } else {
        None
    }
}

/// Big-endian `u16` at offset `i`, or `None` when out of range.
pub fn read_u16_be(data: &[u8], i: usize) -> (r: Option<u16>)
    ensures
        i + 2 <= data@.len() ==> r == Some(be16(data@, i as int)),
        i + 2 > data@.len() ==> r is None,
{
    if data.len() >= 2 && i <= data.len() - 2 {
        Some(((data[i] as u16) << 8u16) | (data[i + 1] as u16))
    } else {
        None
    }
}

/// Big-endian `u32` at offset `i`, or `None` when out of range.
pub fn read_u32_be(data: &[u8], i: usize) -> (r: Option<u32>)
    ensures
        i + 4 <= data@.len() ==> r == Some(be32(data@, i as int)),
        i + 4 > data@.len() ==> r is None,
{
    if data.len() >= 4 && i <= data.len() - 4 {
        Some(
            ((data[i] as u32) << 24u32) | ((data[i + 1] as u32) << 16u32) | ((data[i
                + 2] as u32) << 8u32) | (data[i + 3] as u32),
        )
    } else {
        None
    }
}

/// Big-endian 48-bit value at offset `i`, or `None` when out of range.
pub fn read_u48_be(data: &[u8], i: usize) -> (r: Option<u64>)
    ensures
        i + 6 <= data@.len() ==> r == Some(be48(data@, i as int)),
        i + 6 > data@.len() ==> r is None,
{
    if data.len() >= 6 && i <= data.len() - 6 {
        Some(
            ((data[i] as u64) << 40u64) | ((data[i + 1] as u64) << 32u64) | ((data[i
                + 2] as u64) << 24u64) | ((data[i + 3] as u64) << 16u64) | ((data[i
                + 4] as u64) << 8u64) | (data[i + 5] as u64),
        )
    } else {
        None
    }
}

/// Big-endian `u64` at offset `i`, or `None` when out of range.
pub fn read_u64_be(data: &[u8], i: usize) -> (r: Option<u64>)
    ensures
        i + 8 <= data@.len() ==> r == Some(be64(data@, i as int)),
        i + 8 > data@.len() ==> r is None,
{
    if data.len() >= 8 && i <= data.len() - 8 {
        Some(
            ((data[i] as u64) << 56u64) | ((data[i + 1] as u64) << 48u64) | ((data[i
                + 2] as u64) << 40u64) | ((data[i + 3] as u64) << 32u64) | ((data[i
                + 4] as u64) << 24u64) | ((data[i + 5] as u64) << 16u64) | ((data[i
                + 6] as u64) << 8u64) | (data[i + 7] as u64),
        )
    } else {
        None
    }
}

/// Little-endian `u32` at offset `i`, or `None` when out of range.
pub fn read_u32_le(data: &[u8], i: usize) -> (r: Option<u32>)
    ensures
        i + 4 <= data@.len() ==> r == Some(le32(data@, i as int)),
        i + 4 > data@.len() ==> r is None,
{
    if data.len() >= 4 && i <= data.len() - 4 {
        Some(
            ((data[i + 3] as u32) << 24u32) | ((data[i + 2] as u32) << 16u32) | ((data[i
                + 1] as u32) << 8u32) | (data[i] as u32),
        )
    } else {
        None
    }
}

/// An owned copy of the bytes in `[i, j)`, or `None` when the range exceeds
/// the slice bounds.
pub fn take_range(data: &[u8], i: usize, j: usize) -> (r: Option<Vec<u8>>)
    ensures
        i <= j && j <= data@.len() ==> (r matches Some(v) && v@ == data@.subrange(
            i as int,
            j as int,
        )),
        !(i <= j && j <= data@.len()) ==> r is None,
{
    if i <= j && j <= data.len() {
        let s = vstd::slice::slice_subrange(data, i, j);
        Some(vstd::slice::slice_to_vec(s))
    } else {
        None
    }
}

/// An owned copy of the bytes from `i` to the end, or `None` when `i` is
/// past the end.
pub fn take_from(data: &[u8], i: usize) -> (r: Option<Vec<u8>>)
    ensures
        i <= data@.len() ==> (r matches Some(v) && v@ == data@.subrange(
            i as int,
            data@.len() as int,
        )),
        i > data@.len() ==> r is None,
{
    take_range(data, i, data.len())
}

/// Appends every byte of `src` to `dst`.
pub fn extend_bytes(dst: &mut Vec<u8>, src: &[u8])
    ensures
        final(dst)@ == old(dst)@ + src@,
{
    dst.extend_from_slice(src);
    proof {
        assert(dst@ =~= old(dst)@ + src@);
    }
}

/// An owned copy of a byte vector.
pub fn clone_bytes(v: &Vec<u8>) -> (r: Vec<u8>)
    ensures
        r@ == v@,
{
    let r = v.clone();
    proof {
        assert(r@ =~= v@);
    }
    r
}

/// The slice parted at `i`: the bytes before and the bytes from `i` on.
pub fn split<'a>(data: &'a [u8], i: usize) -> (r: (&'a [u8], &'a [u8]))
    requires
        i <= data@.len(),
    ensures
        r.0@ == data@.subrange(0, i as int),
        r.1@ == data@.subrange(i as int, data@.len() as int),
{
    let head = vstd::slice::slice_subrange(data, 0, i);
    let tail = vstd::slice::slice_subrange(data, i, data.len());
    (head, tail)
}

} // verus!
