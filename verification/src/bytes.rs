use vstd::bytes::*;
use vstd::prelude::*;
use vstd::slice::slice_subrange;

verus! {

/// Appends the little-endian bytes of `x`.
pub fn extend_u16_le(out: &mut Vec<u8>, x: u16)
    ensures
        final(out)@ == old(out)@ + spec_u16_to_le_bytes(x),
{
    let mut b = u16_to_le_bytes(x);
    out.append(&mut b);
}

/// Appends the little-endian bytes of `x`.
pub fn extend_u32_le(out: &mut Vec<u8>, x: u32)
    ensures
        final(out)@ == old(out)@ + spec_u32_to_le_bytes(x),
{
    let mut b = u32_to_le_bytes(x);
    out.append(&mut b);
}

/// Appends the little-endian bytes of `x`.
pub fn extend_u64_le(out: &mut Vec<u8>, x: u64)
    ensures
        final(out)@ == old(out)@ + spec_u64_to_le_bytes(x),
{
    let mut b = u64_to_le_bytes(x);
    out.append(&mut b);
}

/// Appends every byte of `src`.
pub fn extend_bytes(out: &mut Vec<u8>, src: &[u8])
    ensures
        final(out)@ == old(out)@ + src@,
{
    let ghost start = out@;
    let n = src.len();
    let mut i: usize = 0;
    while i < n
        invariant
            n == src@.len(),
            i <= n,
            out@ == start + src@.subrange(0, i as int),
        decreases n - i,
    {
        out.push(src[i]);
        i = i + 1;
        assert(src@.subrange(0, i as int) =~= src@.subrange(0, i - 1).push(src@[i - 1]));
    }
    assert(src@.subrange(0, n as int) =~= src@);
}

/// Reads a little-endian `u16` at `pos`.
pub fn read_u16_le(buf: &[u8], pos: usize) -> (x: u16)
    requires
        pos + 2 <= buf@.len(),
    ensures
        x == spec_u16_from_le_bytes(buf@.subrange(pos as int, pos + 2)),
{
    let _n = buf.len();
    u16_from_le_bytes(slice_subrange(buf, pos, pos + 2))
}

/// Reads a little-endian `u32` at `pos`.
pub fn read_u32_le(buf: &[u8], pos: usize) -> (x: u32)
    requires
        pos + 4 <= buf@.len(),
    ensures
        x == spec_u32_from_le_bytes(buf@.subrange(pos as int, pos + 4)),
{
    let _n = buf.len();
    u32_from_le_bytes(slice_subrange(buf, pos, pos + 4))
}

/// Reads a little-endian `u64` at `pos`.
pub fn read_u64_le(buf: &[u8], pos: usize) -> (x: u64)
    requires
        pos + 8 <= buf@.len(),
    ensures
        x == spec_u64_from_le_bytes(buf@.subrange(pos as int, pos + 8)),
{
    let _n = buf.len();
    u64_from_le_bytes(slice_subrange(buf, pos, pos + 8))
}

/// Copies the 32 bytes at `pos` into an array.
pub fn read_array32(buf: &[u8], pos: usize) -> (a: [u8; 32])
    requires
        pos + 32 <= buf@.len(),
    ensures
        a@ == buf@.subrange(pos as int, pos + 32),
{
    let _n = buf.len();
    let mut a = [0u8; 32];
    let mut i: usize = 0;
    while i < 32
        invariant
            pos + 32 <= buf@.len(),
            buf@.len() == _n,
            i <= 32,
            forall|j: int| 0 <= j < i ==> a@[j] == buf@[pos + j],
        decreases 32 - i,
    {
        a[i] = buf[pos + i];
        i = i + 1;
    }
    assert(a@ =~= buf@.subrange(pos as int, pos + 32));
    a
}

/// Copies the 64 bytes at `pos` into an array.
pub fn read_array64(buf: &[u8], pos: usize) -> (a: [u8; 64])
    requires
        pos + 64 <= buf@.len(),
    ensures
        a@ == buf@.subrange(pos as int, pos + 64),
{
    let _n = buf.len();
    let mut a = [0u8; 64];
    let mut i: usize = 0;
    while i < 64
        invariant
            pos + 64 <= buf@.len(),
            buf@.len() == _n,
            i <= 64,
            forall|j: int| 0 <= j < i ==> a@[j] == buf@[pos + j],
        decreases 64 - i,
    {
        a[i] = buf[pos + i];
        i = i + 1;
    }
    assert(a@ =~= buf@.subrange(pos as int, pos + 64));
    a
}

} // verus!
