//! Little-endian integer codecs and small byte-vector helpers used by the
//! persisted layouts of this crate.

use vstd::prelude::*;

verus! {

/// Canonical little-endian encoding of a `u32` as four bytes.
pub open spec fn spec_le32(x: u32) -> Seq<u8> {
    seq![
        (x & 0xff) as u8,
        ((x >> 8) & 0xff) as u8,
        ((x >> 16) & 0xff) as u8,
        ((x >> 24) & 0xff) as u8,
    ]
}

/// Canonical little-endian encoding of a `u64` as eight bytes.
pub open spec fn spec_le64(x: u64) -> Seq<u8> {
    seq![
        (x & 0xff) as u8,
        ((x >> 8) & 0xff) as u8,
        ((x >> 16) & 0xff) as u8,
        ((x >> 24) & 0xff) as u8,
        ((x >> 32) & 0xff) as u8,
        ((x >> 40) & 0xff) as u8,
        ((x >> 48) & 0xff) as u8,
        ((x >> 56) & 0xff) as u8,
    ]
}

/// The `u32` whose little-endian encoding a four-byte sequence is.
pub open spec fn spec_u32_of_le(s: Seq<u8>) -> u32
    recommends
        s.len() == 4,
{
    (s[0] as u32) | ((s[1] as u32) << 8) | ((s[2] as u32) << 16) | ((s[3] as u32) << 24)
}

/// Decoding an encoding gives the value back.
pub proof fn lemma_le32_roundtrip(x: u32)
    ensures
        spec_u32_of_le(spec_le32(x)) == x,
{
    assert(((x & 0xff) as u8) as u32 | ((((x >> 8) & 0xff) as u8) as u32) << 8 | ((((x >> 16)
        & 0xff) as u8) as u32) << 16 | ((((x >> 24) & 0xff) as u8) as u32) << 24 == x)
        by (bit_vector);
}

/// Two distinct `u32` values never share an encoding.
pub proof fn lemma_le32_injective(x: u32, y: u32)
    requires
        spec_le32(x) == spec_le32(y),
    ensures
        x == y,
{
    assert(spec_le32(x)[0] == spec_le32(y)[0]);
    assert(spec_le32(x)[1] == spec_le32(y)[1]);
    assert(spec_le32(x)[2] == spec_le32(y)[2]);
    assert(spec_le32(x)[3] == spec_le32(y)[3]);
    assert(((x & 0xff) as u8) == ((y & 0xff) as u8)
        && (((x >> 8) & 0xff) as u8) == (((y >> 8) & 0xff) as u8)
        && (((x >> 16) & 0xff) as u8) == (((y >> 16) & 0xff) as u8)
        && (((x >> 24) & 0xff) as u8) == (((y >> 24) & 0xff) as u8) ==> x == y) by (bit_vector);
}

/// The `u64` whose little-endian encoding an eight-byte sequence is.
pub open spec fn spec_u64_of_le(s: Seq<u8>) -> u64
    recommends
        s.len() == 8,
{
    (s[0] as u64) | ((s[1] as u64) << 8) | ((s[2] as u64) << 16) | ((s[3] as u64) << 24) | ((
    s[4] as u64) << 32) | ((s[5] as u64) << 40) | ((s[6] as u64) << 48) | ((s[7] as u64) << 56)
}

/// Decoding an encoding gives the value back.
pub proof fn lemma_le64_roundtrip(x: u64)
    ensures
        spec_u64_of_le(spec_le64(x)) == x,
{
    assert(((x & 0xff) as u8) as u64 | ((((x >> 8) & 0xff) as u8) as u64) << 8 | ((((x >> 16)
        & 0xff) as u8) as u64) << 16 | ((((x >> 24) & 0xff) as u8) as u64) << 24 | ((((x >> 32)
        & 0xff) as u8) as u64) << 32 | ((((x >> 40) & 0xff) as u8) as u64) << 40 | ((((x >> 48)
        & 0xff) as u8) as u64) << 48 | ((((x >> 56) & 0xff) as u8) as u64) << 56 == x)
        by (bit_vector);
}

/// Two distinct `u64` values never share an encoding.
pub proof fn lemma_le64_injective(x: u64, y: u64)
    requires
        spec_le64(x) == spec_le64(y),
    ensures
        x == y,
{
    assert(spec_le64(x)[0] == spec_le64(y)[0]);
    assert(spec_le64(x)[1] == spec_le64(y)[1]);
    assert(spec_le64(x)[2] == spec_le64(y)[2]);
    assert(spec_le64(x)[3] == spec_le64(y)[3]);
    assert(spec_le64(x)[4] == spec_le64(y)[4]);
    assert(spec_le64(x)[5] == spec_le64(y)[5]);
    assert(spec_le64(x)[6] == spec_le64(y)[6]);
    assert(spec_le64(x)[7] == spec_le64(y)[7]);
    assert(((x & 0xff) as u8) == ((y & 0xff) as u8)
        && (((x >> 8) & 0xff) as u8) == (((y >> 8) & 0xff) as u8)
        && (((x >> 16) & 0xff) as u8) == (((y >> 16) & 0xff) as u8)
        && (((x >> 24) & 0xff) as u8) == (((y >> 24) & 0xff) as u8)
        && (((x >> 32) & 0xff) as u8) == (((y >> 32) & 0xff) as u8)
        && (((x >> 40) & 0xff) as u8) == (((y >> 40) & 0xff) as u8)
        && (((x >> 48) & 0xff) as u8) == (((y >> 48) & 0xff) as u8)
        && (((x >> 56) & 0xff) as u8) == (((y >> 56) & 0xff) as u8) ==> x == y) by (bit_vector);
}

/// Append the four little-endian bytes of `x` to `dst`.
pub fn push_le32(dst: &mut Vec<u8>, x: u32)
    ensures
        final(dst)@ == old(dst)@ + spec_le32(x),
{
    dst.push((x & 0xff) as u8);
    dst.push(((x >> 8) & 0xff) as u8);
    dst.push(((x >> 16) & 0xff) as u8);
    dst.push(((x >> 24) & 0xff) as u8);
    assert(dst@ =~= old(dst)@ + spec_le32(x));
}

/// Append the eight little-endian bytes of `x` to `dst`.
pub fn push_le64(dst: &mut Vec<u8>, x: u64)
    ensures
        final(dst)@ == old(dst)@ + spec_le64(x),
{
    dst.push((x & 0xff) as u8);
    dst.push(((x >> 8) & 0xff) as u8);
    dst.push(((x >> 16) & 0xff) as u8);
    dst.push(((x >> 24) & 0xff) as u8);
    dst.push(((x >> 32) & 0xff) as u8);
    dst.push(((x >> 40) & 0xff) as u8);
    dst.push(((x >> 48) & 0xff) as u8);
    dst.push(((x >> 56) & 0xff) as u8);
    assert(dst@ =~= old(dst)@ + spec_le64(x));
}

/// Read the `u32` whose little-endian encoding sits at `data[at..at + 4]`.
pub fn read_le32(data: &Vec<u8>, at: usize) -> (r: u32)
    requires
        at + 4 <= data@.len(),
    ensures
        spec_le32(r) == data@.subrange(at as int, at + 4),
{
    let n = data.len();
    let b0 = data[at];
    let b1 = data[at + 1];
    let b2 = data[at + 2];
    let b3 = data[at + 3];
    let r: u32 = (b0 as u32) | ((b1 as u32) << 8) | ((b2 as u32) << 16) | ((b3 as u32) << 24);
    proof {
        let x0 = b0 as u32;
        let x1 = b1 as u32;
        let x2 = b2 as u32;
        let x3 = b3 as u32;
        assert(x0 < 256 && x1 < 256 && x2 < 256 && x3 < 256 ==> {
            let v = x0 | (x1 << 8) | (x2 << 16) | (x3 << 24);
            (v & 0xff) == x0 && ((v >> 8) & 0xff) == x1 && ((v >> 16) & 0xff) == x2
                && ((v >> 24) & 0xff) == x3
        }) by (bit_vector);
        assert((b0 as u32) < 256 && (x0 & 0xff) == b0 as u32 ==> (x0 & 0xff) as u8 == b0)
            by (bit_vector);
        assert(spec_le32(r) =~= data@.subrange(at as int, at + 4));
    }
    r
}

/// Read the `u64` whose little-endian encoding sits at `data[at..at + 8]`.
pub fn read_le64(data: &Vec<u8>, at: usize) -> (r: u64)
    requires
        at + 8 <= data@.len(),
    ensures
        spec_le64(r) == data@.subrange(at as int, at + 8),
{
    let n = data.len();
    let b0 = data[at];
    let b1 = data[at + 1];
    let b2 = data[at + 2];
    let b3 = data[at + 3];
    let b4 = data[at + 4];
    let b5 = data[at + 5];
    let b6 = data[at + 6];
    let b7 = data[at + 7];
    let r: u64 = (b0 as u64) | ((b1 as u64) << 8) | ((b2 as u64) << 16) | ((b3 as u64) << 24)
        | ((b4 as u64) << 32) | ((b5 as u64) << 40) | ((b6 as u64) << 48) | ((b7 as u64) << 56);
    proof {
        let x0 = b0 as u64;
        let x1 = b1 as u64;
        let x2 = b2 as u64;
        let x3 = b3 as u64;
        let x4 = b4 as u64;
        let x5 = b5 as u64;
        let x6 = b6 as u64;
        let x7 = b7 as u64;
        assert(x0 < 256 && x1 < 256 && x2 < 256 && x3 < 256 && x4 < 256 && x5 < 256 && x6 < 256
            && x7 < 256 ==> {
            let v = x0 | (x1 << 8) | (x2 << 16) | (x3 << 24) | (x4 << 32) | (x5 << 40) | (x6 << 48)
                | (x7 << 56);
            (v & 0xff) == x0 && ((v >> 8) & 0xff) == x1 && ((v >> 16) & 0xff) == x2
                && ((v >> 24) & 0xff) == x3 && ((v >> 32) & 0xff) == x4 && ((v >> 40) & 0xff) == x5
                && ((v >> 48) & 0xff) == x6 && ((v >> 56) & 0xff) == x7
        }) by (bit_vector);
        assert(spec_le64(r) =~= data@.subrange(at as int, at + 8));
    }
    r
}

/// Append every byte of `src` to `dst`.
pub fn push_bytes(dst: &mut Vec<u8>, src: &Vec<u8>)
    ensures
        final(dst)@ == old(dst)@ + src@,
{
    let mut i: usize = 0;
    while i < src.len()
        invariant
            i <= src@.len(),
            dst@ == old(dst)@ + src@.subrange(0, i as int),
        decreases src@.len() - i,
    {
        dst.push(src[i]);
        assert(dst@ =~= old(dst)@ + src@.subrange(0, i + 1));
        i += 1;
    }
    assert(dst@ =~= old(dst)@ + src@);
}

/// Overwrite the first `src.len()` bytes of `dst` with `src`, leaving the
/// rest of `dst` untouched.
pub fn write_prefix(dst: &mut Vec<u8>, src: &Vec<u8>)
    requires
        src@.len() <= old(dst)@.len(),
    ensures
        final(dst)@ == src@ + old(dst)@.skip(src@.len() as int),
{
    let mut i: usize = 0;
    while i < src.len()
        invariant
            i <= src@.len(),
            src@.len() <= dst@.len(),
            dst@.len() == old(dst)@.len(),
            dst@ == src@.take(i as int) + old(dst)@.skip(i as int),
        decreases src@.len() - i,
    {
        dst[i] = src[i];
        assert(dst@ =~= src@.take(i + 1) + old(dst)@.skip(i + 1));
        i += 1;
    }
    assert(dst@ =~= src@ + old(dst)@.skip(src@.len() as int));
}

/// Copy the `len` bytes of `data` that start at `at` into a fresh vector.
pub fn read_bytes(data: &Vec<u8>, at: usize, len: usize) -> (r: Vec<u8>)
    requires
        at + len <= data@.len(),
    ensures
        r@ == data@.subrange(at as int, at + len),
{
    let n = data.len();
    let mut out: Vec<u8> = Vec::new();
    let mut i: usize = 0;
    while i < len
        invariant
            i <= len,
            at + len <= data@.len() && data@.len() <= usize::MAX,
            out@ == data@.subrange(at as int, at + i),
        decreases len - i,
    {
        out.push(data[at + i]);
        assert(out@ =~= data@.subrange(at as int, at + i + 1));
        i += 1;
    }
    out
}

} // verus!
