//! Byte-level building blocks shared by every message layout: big-endian
//! integers, fixed-width windows of a buffer, and appending to a buffer.

use vstd::prelude::*;

verus! {

/// The four bytes of `x`, most significant first.
pub open spec fn be32_bytes(x: u32) -> Seq<u8> {
    seq![
        (x / 0x100_0000) as u8,
        (x / 0x1_0000 % 0x100) as u8,
        (x / 0x100 % 0x100) as u8,
        (x % 0x100) as u8,
    ]
}

/// The integer whose big-endian bytes are the first four bytes of `b`.
pub open spec fn be32_value(b: Seq<u8>) -> u32
    recommends
        b.len() >= 4,
{
    (b[0] as int * 0x100_0000 + b[1] as int * 0x1_0000 + b[2] as int * 0x100 + b[3] as int) as u32
}

/// The two bytes of `x`, most significant first.
pub open spec fn be16_bytes(x: u16) -> Seq<u8> {
    seq![(x / 0x100) as u8, (x % 0x100) as u8]
}

/// Decoding the big-endian bytes of an integer gives that integer back.
pub proof fn lemma_be32_value_of_bytes(x: u32)
    ensures
        be32_bytes(x).len() == 4,
        be32_value(be32_bytes(x)) == x,
{
}

/// Encoding the integer read from four bytes gives those bytes back.
pub proof fn lemma_be32_bytes_of_value(b: Seq<u8>)
    requires
        b.len() == 4,
    ensures
        be32_bytes(be32_value(b)) == b,
{
    let b0 = b[0] as int;
    let b1 = b[1] as int;
    let b2 = b[2] as int;
    let b3 = b[3] as int;
    let v = b0 * 0x100_0000 + b1 * 0x1_0000 + b2 * 0x100 + b3;
    assert(be32_value(b) == v);
    assert(v / 0x100_0000 == b0) by {
        assert(v == 0x100_0000 * b0 + (b1 * 0x1_0000 + b2 * 0x100 + b3));
    }
    assert(v / 0x1_0000 == b0 * 0x100 + b1) by {
        assert(v == 0x1_0000 * (b0 * 0x100 + b1) + (b2 * 0x100 + b3));
    }
    assert(v / 0x100 == b0 * 0x1_0000 + b1 * 0x100 + b2) by {
        assert(v == 0x100 * (b0 * 0x1_0000 + b1 * 0x100 + b2) + b3);
    }
    assert((b0 * 0x100 + b1) % 0x100 == b1);
    assert((b0 * 0x1_0000 + b1 * 0x100 + b2) % 0x100 == b2) by {
        assert(b0 * 0x1_0000 + b1 * 0x100 + b2 == 0x100 * (b0 * 0x100 + b1) + b2);
    }
    assert(v % 0x100 == b3) by {
        assert(v == 0x100 * (b0 * 0x1_0000 + b1 * 0x100 + b2) + b3);
    }
    assert(be32_bytes(be32_value(b)) =~= b);
}

/// Big-endian encoding of a 32-bit integer.
pub fn u32_to_be(x: u32) -> (out: [u8; 4])
    ensures
        out@ == be32_bytes(x),
{
    let out: [u8; 4] = [
        (x / 0x100_0000) as u8,
        (x / 0x1_0000 % 0x100) as u8,
        (x / 0x100 % 0x100) as u8,
        (x % 0x100) as u8,
    ];
    assert(out@ =~= be32_bytes(x));
    out
}

/// Big-endian encoding of a 16-bit integer.
pub fn u16_to_be(x: u16) -> (out: [u8; 2])
    ensures
        out@ == be16_bytes(x),
{
    let out: [u8; 2] = [(x / 0x100) as u8, (x % 0x100) as u8];
    assert(out@ =~= be16_bytes(x));
    out
}

/// Reads the big-endian 32-bit integer that starts at `off`.
pub fn u32_from_be(data: &[u8], off: usize) -> (x: u32)
    requires
        off + 4 <= data@.len(),
    ensures
        x == be32_value(data@.subrange(off as int, off + 4)),
{
    let b0: u32 = data[off] as u32;
    let b1: u32 = data[off + 1] as u32;
    let b2: u32 = data[off + 2] as u32;
    let b3: u32 = data[off + 3] as u32;
    b0 * 0x100_0000 + b1 * 0x1_0000 + b2 * 0x100 + b3
}

/// Copies the `N` bytes that start at `off` into an array.
pub fn window<const N: usize>(data: &[u8], off: usize) -> (out: [u8; N])
    requires
        off + N <= data@.len(),
    ensures
        out@ == data@.subrange(off as int, off + N),
{
    let mut out: [u8; N] = [0u8; N];
    let mut i: usize = 0;
    while i < N
        invariant
            i <= N,
            off + N <= data@.len(),
            data@.len() == data.len(),
            forall|j: int| 0 <= j < i ==> out@[j] == data@[off + j],
        decreases N - i,
    {
        out[i] = data[off + i];
        i += 1;
    }
    assert(out@ =~= data@.subrange(off as int, off + N));
    out
}

/// Appends `src` to `dst`.
pub fn append(dst: &mut Vec<u8>, src: &[u8])
    ensures
        final(dst)@ == old(dst)@ + src@,
{
    dst.extend_from_slice(src);
    assert(dst@ =~= old(dst)@ + src@);
}

} // verus!
