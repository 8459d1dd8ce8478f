//! Big-endian 32-bit integers as they stand on the wire.

use vstd::prelude::*;

verus! {

/// The integer that four bytes starting at `off` spell, most significant first.
pub open spec fn be_u32_at(b: Seq<u8>, off: int) -> int {
    b[off] as int * 16777216 + b[off + 1] as int * 65536 + b[off + 2] as int * 256 + b[off + 3] as int
}

/// The four bytes of `n`, most significant first.
pub open spec fn u32_be(n: u32) -> Seq<u8> {
    seq![
        (n / 16777216) as u8,
        ((n / 65536) % 256) as u8,
        ((n / 256) % 256) as u8,
        (n % 256) as u8,
    ]
}

/// Reading back the bytes of `n`, wherever they stand, gives `n`.
pub proof fn lemma_be_round_trip(pre: Seq<u8>, n: u32, post: Seq<u8>)
    ensures
        be_u32_at(pre + u32_be(n) + post, pre.len() as int) == n,
{
    let b = pre + u32_be(n) + post;
    let k = pre.len() as int;
    assert(b[k] == (n / 16777216) as u8);
    assert(b[k + 1] == ((n / 65536) % 256) as u8);
    assert(b[k + 2] == ((n / 256) % 256) as u8);
    assert(b[k + 3] == (n % 256) as u8);
}

/// Four bytes that equal those of `n` spell `n`.
pub proof fn lemma_be_at(b: Seq<u8>, k: int, n: u32)
    requires
        0 <= k,
        k + 4 <= b.len(),
        b.subrange(k, k + 4) == u32_be(n),
    ensures
        be_u32_at(b, k) == n,
{
    lemma_be_round_trip(b.subrange(0, k), n, b.subrange(k + 4, b.len() as int));
    assert(b =~= b.subrange(0, k) + u32_be(n) + b.subrange(k + 4, b.len() as int));
}

/// Appends the four bytes of `n`, most significant first.
pub fn push_u32_be(buf: &mut Vec<u8>, n: u32)
    ensures
        final(buf)@ == old(buf)@ + u32_be(n),
{
    buf.push((n / 16777216) as u8);
    buf.push(((n / 65536) % 256) as u8);
    buf.push(((n / 256) % 256) as u8);
    buf.push((n % 256) as u8);
    assert(final(buf)@ =~= old(buf)@ + u32_be(n));
}

/// Reads the integer that four bytes starting at `off` spell, most significant first.
pub fn read_u32_be(b: &[u8], off: usize) -> (r: u32)
    requires
        off + 4 <= b@.len(),
    ensures
        r == be_u32_at(b@, off as int),
{
    let r: u32 = (b[off] as u32) * 16777216 + (b[off + 1] as u32) * 65536 + (b[off + 2] as u32) * 256
        + (b[off + 3] as u32);
    r
}


/// Copies the bytes of `b` from `from` up to `to`.
pub fn copy_range(b: &[u8], from: usize, to: usize) -> (r: Vec<u8>)
    requires
        from <= to <= b@.len(),
    ensures
        r@ == b@.subrange(from as int, to as int),
{
    let mut r: Vec<u8> = Vec::new();
    let mut i: usize = from;
    while i < to
        invariant
            from <= i <= to <= b@.len(),
            r@ == b@.subrange(from as int, i as int),
        decreases to - i,
    {
        r.push(b[i]);
        i = i + 1;
        assert(r@ =~= b@.subrange(from as int, i as int));
    }
    r
}

/// Appends every byte of `src`.
pub fn push_all(buf: &mut Vec<u8>, src: &[u8])
    ensures
        final(buf)@ == old(buf)@ + src@,
{
    let mut i: usize = 0;
    while i < src.len()
        invariant
            i <= src@.len(),
            buf@ == old(buf)@ + src@.subrange(0, i as int),
        decreases src@.len() - i,
    {
        buf.push(src[i]);
        i = i + 1;
        assert(buf@ =~= old(buf)@ + src@.subrange(0, i as int));
    }
    assert(src@.subrange(0, src@.len() as int) =~= src@);
}

} // verus!
