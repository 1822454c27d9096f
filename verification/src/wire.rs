//! Big-endian and little-endian integer encodings used by the wire formats.

use vstd::prelude::*;

verus! {

/// The four big-endian bytes of `x`.
pub open spec fn be32(x: u32) -> Seq<u8> {
    seq![(x >> 24u32) as u8, (x >> 16u32) as u8, (x >> 8u32) as u8, x as u8]
}

/// The `u32` whose big-endian bytes are `b[0..4]`.
pub open spec fn be32_value(b: Seq<u8>) -> u32
    recommends
        b.len() >= 4,
{
    ((b[0] as u32) << 24u32) | ((b[1] as u32) << 16u32) | ((b[2] as u32) << 8u32) | (b[3] as u32)
}

/// The eight big-endian bytes of `x`.
pub open spec fn be64(x: u64) -> Seq<u8> {
    be32((x >> 32u64) as u32) + be32(x as u32)
}

/// The `u64` whose big-endian bytes are `b[0..8]`.
pub open spec fn be64_value(b: Seq<u8>) -> u64
    recommends
        b.len() >= 8,
{
    ((be32_value(b) as u64) << 32u64) | (be32_value(b.subrange(4, 8)) as u64)
}

pub proof fn lemma_be32_roundtrip(x: u32)
    ensures
        be32_value(be32(x)) == x,
        be32(x).len() == 4,
{
    let b = be32(x);
    assert(b[0] == (x >> 24u32) as u8);
    assert(b[1] == (x >> 16u32) as u8);
    assert(b[2] == (x >> 8u32) as u8);
    assert(b[3] == x as u8);
    assert((((x >> 24u32) as u8 as u32) << 24u32) | (((x >> 16u32) as u8 as u32) << 16u32) | (((
    x >> 8u32) as u8 as u32) << 8u32) | (x as u8 as u32) == x) by (bit_vector);
}

pub proof fn lemma_be64_roundtrip(x: u64)
    ensures
        be64_value(be64(x)) == x,
        be64(x).len() == 8,
{
    let hi = (x >> 32u64) as u32;
    let lo = x as u32;
    lemma_be32_roundtrip(hi);
    lemma_be32_roundtrip(lo);
    let b = be64(x);
    assert(b.subrange(0, 4) =~= be32(hi));
    assert(b.subrange(4, 8) =~= be32(lo));
    assert(be32_value(b) == be32_value(b.subrange(0, 4)));
    assert(((((x >> 32u64) as u32) as u64) << 32u64) | ((x as u32) as u64) == x) by (bit_vector);
}

/// Appends the big-endian bytes of `x` to `buf`.
pub fn put_u32(buf: &mut Vec<u8>, x: u32)
    ensures
        final(buf)@ == old(buf)@ + be32(x),
{
    buf.push((x >> 24u32) as u8);
    buf.push((x >> 16u32) as u8);
    buf.push((x >> 8u32) as u8);
    buf.push(x as u8);
    assert(buf@ =~= old(buf)@ + be32(x));
}

/// Appends the big-endian bytes of `x` to `buf`.
pub fn put_u64(buf: &mut Vec<u8>, x: u64)
    ensures
        final(buf)@ == old(buf)@ + be64(x),
{
    put_u32(buf, (x >> 32u64) as u32);
    put_u32(buf, x as u32);
    assert(buf@ =~= old(buf)@ + be64(x));
}

/// Appends all of `src` to `buf`.
pub fn put_slice(buf: &mut Vec<u8>, src: &[u8])
    ensures
        final(buf)@ == old(buf)@ + src@,
{
    let mut i: usize = 0;
    while i < src.len()
        invariant
            i <= src@.len(),
            buf@ == old(buf)@ + src@.subrange(0, i as int),
        decreases src@.len() - i,
    {
        buf.push(src[i]);
        i = i + 1;
        assert(buf@ =~= old(buf)@ + src@.subrange(0, i as int));
    }
    assert(src@.subrange(0, src@.len() as int) =~= src@);
}

/// Reads the big-endian `u32` stored at `data[pos..pos + 4]`.
pub fn get_u32(data: &[u8], pos: usize) -> (r: u32)
    requires
        pos + 4 <= data@.len(),
    ensures
        r == be32_value(data@.subrange(pos as int, pos + 4)),
{
    ((data[pos] as u32) << 24u32) | ((data[pos + 1] as u32) << 16u32) | ((data[pos + 2] as u32)
        << 8u32) | (data[pos + 3] as u32)
}

/// Reads the big-endian `u64` stored at `data[pos..pos + 8]`.
pub fn get_u64(data: &[u8], pos: usize) -> (r: u64)
    requires
        pos + 8 <= data@.len(),
    ensures
        r == be64_value(data@.subrange(pos as int, pos + 8)),
{
    let _n = data.len();
    let hi = get_u32(data, pos);
    let lo = get_u32(data, pos + 4);
    assert(data@.subrange(pos as int, pos + 8).subrange(4, 8) =~= data@.subrange(pos + 4, pos + 8));
    assert(data@.subrange(pos as int, pos + 8).subrange(0, 4) =~= data@.subrange(pos as int, pos + 4));
    ((hi as u64) << 32u64) | (lo as u64)
}

/// Copies `data[start..end]` into a new vector.
pub fn copy_range(data: &[u8], start: usize, end: usize) -> (r: Vec<u8>)
    requires
        start <= end <= data@.len(),
    ensures
        r@ == data@.subrange(start as int, end as int),
{
    let mut out: Vec<u8> = Vec::new();
    let mut i = start;
    while i < end
        invariant
            start <= i <= end,
            end <= data@.len(),
            out@ == data@.subrange(start as int, i as int),
        decreases end - i,
    {
        out.push(data[i]);
        i = i + 1;
        assert(out@ =~= data@.subrange(start as int, i as int));
    }
    out
}

} // verus!
