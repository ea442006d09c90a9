//! Little-endian views into byte buffers, and the write primitives the codec
//! uses: every mutation of a save image goes through these, so each carries an
//! exact frame condition.

use vstd::prelude::*;

verus! {

/// The value of the little-endian 16-bit word at offset `i`.
pub open spec fn u16_at(s: Seq<u8>, i: int) -> int {
    s[i] + 0x100 * s[i + 1]
}

/// The value of the little-endian 32-bit word at offset `i`.
pub open spec fn u32_at(s: Seq<u8>, i: int) -> int {
    s[i] + 0x100 * s[i + 1] + 0x10000 * s[i + 2] + 0x1000000 * s[i + 3]
}

/// Read the little-endian 16-bit word at `off`.
pub fn read_u16_le(data: &[u8], off: usize) -> (r: u16)
    requires
        off + 2 <= data.len(),
    ensures
        r == u16_at(data@, off as int),
{
    let lo = data[off];
    let hi = data[off + 1];
    proof {
        assert((lo as u16) | ((hi as u16) << 8) == lo + 0x100 * hi) by (bit_vector);
    }
    (lo as u16) | ((hi as u16) << 8)
}

/// Read the little-endian 32-bit word at `off`.
pub fn read_u32_le(data: &[u8], off: usize) -> (r: u32)
    requires
        off + 4 <= data.len(),
    ensures
        r == u32_at(data@, off as int),
{
    let b0 = data[off];
    let b1 = data[off + 1];
    let b2 = data[off + 2];
    let b3 = data[off + 3];
    proof {
        assert((b0 as u32) | ((b1 as u32) << 8) | ((b2 as u32) << 16) | ((b3 as u32) << 24) == b0
            + 0x100 * b1 + 0x10000 * b2 + 0x1000000 * b3) by (bit_vector);
    }
    (b0 as u32) | ((b1 as u32) << 8) | ((b2 as u32) << 16) | ((b3 as u32) << 24)
}

/// Write the little-endian 16-bit word `v` at `off`, leaving every other byte
/// unchanged.
pub fn write_u16_le(data: &mut Vec<u8>, off: usize, v: u16)
    requires
        off + 2 <= old(data).len(),
    ensures
        final(data).len() == old(data).len(),
        u16_at(final(data)@, off as int) == v,
        forall|i: int|
            0 <= i < old(data).len() && i != off && i != off + 1 ==> final(data)@[i] == old(
                data,
            )@[i],
{
    let lo = (v & 0xff) as u8;
    let hi = (v >> 8) as u8;
    data[off] = lo;
    data[off + 1] = hi;
    proof {
        assert(((v & 0xff) as u8) + 0x100 * ((v >> 8) as u8) == v) by (bit_vector);
    }
}

/// Write the little-endian 32-bit word `v` at `off`, leaving every other byte
/// unchanged.
pub fn write_u32_le(data: &mut Vec<u8>, off: usize, v: u32)
    requires
        off + 4 <= old(data).len(),
    ensures
        final(data).len() == old(data).len(),
        u32_at(final(data)@, off as int) == v,
        forall|i: int|
            0 <= i < old(data).len() && !(off <= i < off + 4) ==> final(data)@[i] == old(
                data,
            )@[i],
{
    let b0 = (v & 0xff) as u8;
    let b1 = ((v >> 8) & 0xff) as u8;
    let b2 = ((v >> 16) & 0xff) as u8;
    let b3 = ((v >> 24) & 0xff) as u8;
    data[off] = b0;
    data[off + 1] = b1;
    data[off + 2] = b2;
    data[off + 3] = b3;
    proof {
        assert(((v & 0xff) as u8) + 0x100 * (((v >> 8) & 0xff) as u8) + 0x10000 * (((v >> 16)
            & 0xff) as u8) + 0x1000000 * (((v >> 24) & 0xff) as u8) == v) by (bit_vector);
    }
}

/// Copy `n` bytes from `src[src_off..]` into `data[dst_off..]`, leaving every
/// byte outside the destination range unchanged.
pub fn copy_bytes(data: &mut Vec<u8>, dst_off: usize, src: &[u8], src_off: usize, n: usize)
    requires
        dst_off + n <= old(data).len(),
        src_off + n <= src.len(),
    ensures
        final(data).len() == old(data).len(),
        forall|i: int|
            dst_off <= i < dst_off + n ==> final(data)@[i] == src@[src_off + (i - dst_off)],
        forall|i: int|
            0 <= i < old(data).len() && !(dst_off <= i < dst_off + n) ==> final(data)@[i] == old(
                data,
            )@[i],
{
    let mut k: usize = 0;
    while k < n
        invariant
            0 <= k <= n,
            dst_off + n <= data.len(),
            src_off + n <= src.len(),
            data.len() == old(data).len(),
            forall|i: int| dst_off <= i < dst_off + k ==> data@[i] == src@[src_off + (i - dst_off)],
            forall|i: int|
                0 <= i < old(data).len() && !(dst_off <= i < dst_off + n) ==> data@[i] == old(
                    data,
                )@[i],
        decreases n - k,
    {
        let b = src[src_off + k];
        data[dst_off + k] = b;
        k = k + 1;
    }
}

/// A fresh copy of `data[off..off + n]`.
pub fn sub_bytes(data: &[u8], off: usize, n: usize) -> (r: Vec<u8>)
    requires
        off + n <= data.len(),
    ensures
        r@ == data@.subrange(off as int, off + n),
{
    let mut out: Vec<u8> = Vec::new();
    let mut k: usize = 0;
    while k < n
        invariant
            0 <= k <= n,
            off + n <= data.len(),
            out@.len() == k,
            forall|i: int| 0 <= i < k ==> out@[i] == data@[off + i],
        decreases n - k,
    {
        out.push(data[off + k]);
        k = k + 1;
    }
    proof {
        assert(out@ =~= data@.subrange(off as int, off + n));
    }
    out
}

/// True when every byte of `data[off..off + n]` is zero.
pub fn range_is_zero(data: &[u8], off: usize, n: usize) -> (r: bool)
    requires
        off + n <= data.len(),
    ensures
        r == forall|i: int| off <= i < off + n ==> data@[i] == 0,
{
    let mut k: usize = 0;
    while k < n
        invariant
            0 <= k <= n,
            off + n <= data.len(),
            forall|i: int| off <= i < off + k ==> data@[i] == 0,
        decreases n - k,
    {
        if data[off + k] != 0 {
            return false;
        }
        k = k + 1;
    }
    true
}

} // verus!
