//! Big-endian integer encodings and byte-vector helpers shared by the binary formats.
use vstd::prelude::*;

verus! {

/// The four bytes of `n`, most significant first.
pub open spec fn be32(n: u32) -> Seq<u8> {
    seq![(n >> 24u32) as u8, (n >> 16u32) as u8, (n >> 8u32) as u8, n as u8]
}

/// The number whose big-endian bytes are `s[0..4]`.
pub open spec fn from_be32(s: Seq<u8>) -> u32 {
    ((s[0] as u32) << 24u32) | ((s[1] as u32) << 16u32) | ((s[2] as u32) << 8u32) | (s[3] as u32)
}

pub(crate) proof fn lemma_be32_round_trip(n: u32)
    ensures
        from_be32(be32(n)) == n,
{
    let s = be32(n);
    assert(s[0] == (n >> 24u32) as u8 && s[1] == (n >> 16u32) as u8 && s[2] == (n >> 8u32) as u8
        && s[3] == n as u8);
    assert((((n >> 24u32) as u8 as u32) << 24u32) | (((n >> 16u32) as u8 as u32) << 16u32) | (((n
        >> 8u32) as u8 as u32) << 8u32) | (n as u8 as u32) == n) by (bit_vector);
}

/// The eight bytes of `n`, most significant first.
pub open spec fn be64(n: u64) -> Seq<u8> {
    be32((n >> 32u64) as u32) + be32(n as u32)
}

pub open spec fn from_be64(s: Seq<u8>) -> u64 {
    ((from_be32(s.subrange(0, 4)) as u64) << 32u64) | (from_be32(s.subrange(4, 8)) as u64)
}

pub(crate) proof fn lemma_be64_round_trip(n: u64)
    ensures
        from_be64(be64(n)) == n,
{
    let s = be64(n);
    let hi = (n >> 32u64) as u32;
    let lo = n as u32;
    lemma_be32_round_trip(hi);
    lemma_be32_round_trip(lo);
    assert(s.subrange(0, 4) =~= be32(hi));
    assert(s.subrange(4, 8) =~= be32(lo));
    assert((((n >> 32u64) as u32 as u64) << 32u64) | (n as u32 as u64) == n) by (bit_vector);
}

pub(crate) fn append(dst: &mut Vec<u8>, src: &Vec<u8>)
    ensures
        final(dst)@ == old(dst)@ + src@,
{
    let mut i: usize = 0;
    while i < src.len()
        invariant
            i <= src.len(),
            dst@ == old(dst)@ + src@.take(i as int),
        decreases src.len() - i,
    {
        dst.push(src[i]);
        i = i + 1;
        assert(dst@ =~= old(dst)@ + src@.take(i as int));
    }
    assert(src@.take(i as int) =~= src@);
}

pub(crate) fn append_be32(dst: &mut Vec<u8>, n: u32)
    ensures
        final(dst)@ == old(dst)@ + be32(n),
{
    dst.push((n >> 24u32) as u8);
    dst.push((n >> 16u32) as u8);
    dst.push((n >> 8u32) as u8);
    dst.push(n as u8);
    assert(dst@ =~= old(dst)@ + be32(n));
}

pub(crate) fn append_be64(dst: &mut Vec<u8>, n: u64)
    ensures
        final(dst)@ == old(dst)@ + be64(n),
{
    append_be32(dst, (n >> 32u64) as u32);
    append_be32(dst, n as u32);
    assert(dst@ =~= old(dst)@ + be64(n));
}

pub(crate) fn copy_range(b: &Vec<u8>, start: usize, end: usize) -> (r: Vec<u8>)
    requires
        start <= end <= b@.len(),
    ensures
        r@ == b@.subrange(start as int, end as int),
{
    let mut r: Vec<u8> = Vec::new();
    let mut i: usize = start;
    while i < end
        invariant
            start <= i <= end,
            end <= b@.len(),
            r@ == b@.subrange(start as int, i as int),
        decreases end - i,
    {
        r.push(b[i]);
        i = i + 1;
        assert(r@ =~= b@.subrange(start as int, i as int));
    }
    r
}

} // verus!
