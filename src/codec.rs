//! Bytes of telegrams: big-endian integers, and copies between buffers.
use vstd::prelude::*;
use byteorder::{BigEndian, ByteOrder};

verus! {

/// The 16-bit unsigned integer whose big-endian bytes are `hi` then `lo`.
pub open spec fn be_u16(hi: u8, lo: u8) -> u16 {
    (hi as nat * 256 + lo as nat) as u16
}

/// The big-endian 16-bit value stored at `at` in `b`.
pub open spec fn be_u16_at(b: Seq<u8>, at: int) -> u16 {
    be_u16(b[at], b[at + 1])
}

/// The high byte of `n`.
pub open spec fn hi_byte(n: u16) -> u8 {
    (n / 256) as u8
}

/// The low byte of `n`.
pub open spec fn lo_byte(n: u16) -> u8 {
    (n % 256) as u8
}

/// `b` with the big-endian bytes of `n` stored at `at` and `at + 1`.
pub open spec fn put_be_u16(b: Seq<u8>, at: int, n: u16) -> Seq<u8> {
    b.update(at, hi_byte(n)).update(at + 1, lo_byte(n))
}

/// Relies on `BigEndian::read_u16`: the first two bytes of the slice, high byte first.
#[verifier::external_body]
pub(crate) fn read_u16(buf: &[u8], at: usize) -> (r: u16)
    requires
        at + 2 <= buf@.len(),
    ensures
        r == be_u16_at(buf@, at as int),
{
    BigEndian::read_u16(&buf[at..])
}

/// Relies on `BigEndian::write_u16`: stores `n` in the first two bytes of the slice,
/// high byte first, and leaves the rest unchanged.
#[verifier::external_body]
pub(crate) fn write_u16(buf: &mut Vec<u8>, at: usize, n: u16)
    requires
        at + 2 <= old(buf)@.len(),
    ensures
        final(buf)@ == put_be_u16(old(buf)@, at as int, n),
{
    BigEndian::write_u16(&mut buf[at..], n)
}

/// Copies `len` bytes of `src` from `from` into `buffer` at `at`.
pub(crate) fn copy_into(buffer: &mut Vec<u8>, at: usize, src: &[u8], from: usize, len: usize)
    requires
        at + len <= old(buffer)@.len(),
        from + len <= src@.len(),
    ensures
        final(buffer)@ == old(buffer)@.subrange(0, at as int) + src@.subrange(
            from as int,
            from + len,
        ) + old(buffer)@.subrange(at + len, old(buffer)@.len() as int),
{
    let ghost b0 = buffer@;
    let blen = buffer.len();
    let slen = src.len();
    let mut j: usize = 0;
    while j < len
        invariant
            j <= len,
            b0.len() == blen,
            src@.len() == slen,
            at + len <= b0.len(),
            from + len <= src@.len(),
            buffer@.len() == b0.len(),
            buffer@ == b0.subrange(0, at as int) + src@.subrange(from as int, from + j)
                + b0.subrange(at + j, b0.len() as int),
        decreases len - j,
    {
        buffer.set(at + j, src[from + j]);
        j = j + 1;
        assert(buffer@ =~= b0.subrange(0, at as int) + src@.subrange(from as int, from + j)
            + b0.subrange(at + j, b0.len() as int));
    }
}

/// The `len` bytes of `v` from `from`.
pub(crate) fn sub_vec(v: &[u8], from: usize, len: usize) -> (r: Vec<u8>)
    requires
        from + len <= v@.len(),
    ensures
        r@ == v@.subrange(from as int, from + len),
{
    let mut r: Vec<u8> = Vec::new();
    let vlen = v.len();
    let mut j: usize = 0;
    while j < len
        invariant
            j <= len,
            v@.len() == vlen,
            from + len <= v@.len(),
            r@ == v@.subrange(from as int, from + j),
        decreases len - j,
    {
        r.push(v[from + j]);
        j = j + 1;
        assert(r@ =~= v@.subrange(from as int, from + j));
    }
    r
}

} // verus!
