//! Byte-level primitives of the wire format: big-endian integer encodings,
//! their readers and writers over byte vectors, and UTF-8 string decoding.

use vstd::prelude::*;
use vstd::utf8::{valid_utf8, decode_utf8};

verus! {

// --- Specification of big-endian encodings ---

/// The two-byte big-endian encoding of a `u16`.
pub open spec fn be2(v: u16) -> Seq<u8> {
    seq![((v >> 8) & 0xff) as u8, (v & 0xff) as u8]
}

/// The four-byte big-endian encoding of a `u32`.
pub open spec fn be4(v: u32) -> Seq<u8> {
    seq![
        ((v >> 24) & 0xff) as u8,
        ((v >> 16) & 0xff) as u8,
        ((v >> 8) & 0xff) as u8,
        (v & 0xff) as u8,
    ]
}

/// The two-byte big-endian two's-complement encoding of an `i16`.
pub open spec fn be2i(v: i16) -> Seq<u8> {
    be2(v as u16)
}

/// The four-byte big-endian two's-complement encoding of an `i32`.
pub open spec fn be4i(v: i32) -> Seq<u8> {
    be4(v as u32)
}

/// The sixteen-byte big-endian encoding of a `u128`.
pub open spec fn be16(v: u128) -> Seq<u8> {
    seq![
        ((v >> 120) & 0xff) as u8,
        ((v >> 112) & 0xff) as u8,
        ((v >> 104) & 0xff) as u8,
        ((v >> 96) & 0xff) as u8,
        ((v >> 88) & 0xff) as u8,
        ((v >> 80) & 0xff) as u8,
        ((v >> 72) & 0xff) as u8,
        ((v >> 64) & 0xff) as u8,
        ((v >> 56) & 0xff) as u8,
        ((v >> 48) & 0xff) as u8,
        ((v >> 40) & 0xff) as u8,
        ((v >> 32) & 0xff) as u8,
        ((v >> 24) & 0xff) as u8,
        ((v >> 16) & 0xff) as u8,
        ((v >> 8) & 0xff) as u8,
        (v & 0xff) as u8,
    ]
}

// --- Specification of big-endian reads at a position ---

/// The `u16` whose big-endian encoding stands at index `i` of `b`.
pub open spec fn spec_u16_at(b: Seq<u8>, i: int) -> u16
    recommends 0 <= i, i + 2 <= b.len(),
{
    ((b[i] as u16) << 8) | (b[i + 1] as u16)
}

/// The `u32` whose big-endian encoding stands at index `i` of `b`.
pub open spec fn spec_u32_at(b: Seq<u8>, i: int) -> u32
    recommends 0 <= i, i + 4 <= b.len(),
{
    ((b[i] as u32) << 24) | ((b[i + 1] as u32) << 16) | ((b[i + 2] as u32) << 8) | (b[i
        + 3] as u32)
}

/// The `i32` whose big-endian two's-complement encoding stands at index `i` of `b`.
pub open spec fn spec_i32_at(b: Seq<u8>, i: int) -> i32
    recommends 0 <= i, i + 4 <= b.len(),
{
    spec_u32_at(b, i) as i32
}

// --- Round-trip lemmas between the encodings and the reads ---

/// Reading two bytes written by `be2` yields the written value.
pub proof fn lemma_be2_read(v: u16)
    ensures
        spec_u16_at(be2(v), 0) == v,
{
    assert((((((v >> 8) & 0xff) as u8) as u16) << 8) | (((v & 0xff) as u8) as u16) == v)
        by (bit_vector);
}

/// Reading four bytes written by `be4` yields the written value.
pub proof fn lemma_be4_read(v: u32)
    ensures
        spec_u32_at(be4(v), 0) == v,
{
    assert(((((v >> 24) & 0xff) as u8) as u32) << 24 | ((((v >> 16) & 0xff) as u8) as u32) << 16
        | ((((v >> 8) & 0xff) as u8) as u32) << 8 | (((v & 0xff) as u8) as u32) == v)
        by (bit_vector);
}

/// Reading four bytes written by `be4i` yields the written value.
pub proof fn lemma_be4i_read(v: i32)
    ensures
        spec_i32_at(be4i(v), 0) == v,
{
    lemma_be4_read(v as u32);
    assert((v as u32) as i32 == v) by (bit_vector);
}

/// `spec_u16_at` depends only on the two bytes at `i`.
pub proof fn lemma_u16_at_subrange(b: Seq<u8>, i: int, c: Seq<u8>, j: int)
    requires
        0 <= i, i + 2 <= b.len(),
        0 <= j, j + 2 <= c.len(),
        b[i] == c[j], b[i + 1] == c[j + 1],
    ensures
        spec_u16_at(b, i) == spec_u16_at(c, j),
{
}

/// `spec_u32_at` depends only on the four bytes at `i`.
pub proof fn lemma_u32_at_subrange(b: Seq<u8>, i: int, c: Seq<u8>, j: int)
    requires
        0 <= i, i + 4 <= b.len(),
        0 <= j, j + 4 <= c.len(),
        b[i] == c[j], b[i + 1] == c[j + 1], b[i + 2] == c[j + 2], b[i + 3] == c[j + 3],
    ensures
        spec_u32_at(b, i) == spec_u32_at(c, j),
        spec_i32_at(b, i) == spec_i32_at(c, j),
{
}

// --- Writers: append an encoding to a byte vector ---

/// Appends one byte.
pub fn put_u8(buf: &mut Vec<u8>, v: u8)
    ensures
        final(buf)@ == old(buf)@ + seq![v],
{
    buf.push(v);
    proof {
        assert(buf@ =~= old(buf)@ + seq![v]);
    }
}

/// Appends the two-byte big-endian encoding of `v`.
pub fn put_u16(buf: &mut Vec<u8>, v: u16)
    ensures
        final(buf)@ == old(buf)@ + be2(v),
{
    buf.push(((v >> 8) & 0xff) as u8);
    buf.push((v & 0xff) as u8);
    proof {
        assert(buf@ =~= old(buf)@ + be2(v));
    }
}

/// Appends the four-byte big-endian encoding of `v`.
pub fn put_u32(buf: &mut Vec<u8>, v: u32)
    ensures
        final(buf)@ == old(buf)@ + be4(v),
{
    buf.push(((v >> 24) & 0xff) as u8);
    buf.push(((v >> 16) & 0xff) as u8);
    buf.push(((v >> 8) & 0xff) as u8);
    buf.push((v & 0xff) as u8);
    proof {
        assert(buf@ =~= old(buf)@ + be4(v));
    }
}

/// Appends the two-byte big-endian two's-complement encoding of `v`.
pub fn put_i16(buf: &mut Vec<u8>, v: i16)
    ensures
        final(buf)@ == old(buf)@ + be2i(v),
{
    let u: u16 = #[verifier::truncate] (v as u16);
    put_u16(buf, u);
}

/// Appends the four-byte big-endian two's-complement encoding of `v`.
pub fn put_i32(buf: &mut Vec<u8>, v: i32)
    ensures
        final(buf)@ == old(buf)@ + be4i(v),
{
    let u: u32 = #[verifier::truncate] (v as u32);
    put_u32(buf, u);
}

/// Appends the sixteen-byte big-endian encoding of `v`.
pub fn put_u128(buf: &mut Vec<u8>, v: u128)
    ensures
        final(buf)@ == old(buf)@ + be16(v),
{
    buf.push(((v >> 120) & 0xff) as u8);
    buf.push(((v >> 112) & 0xff) as u8);
    buf.push(((v >> 104) & 0xff) as u8);
    buf.push(((v >> 96) & 0xff) as u8);
    buf.push(((v >> 88) & 0xff) as u8);
    buf.push(((v >> 80) & 0xff) as u8);
    buf.push(((v >> 72) & 0xff) as u8);
    buf.push(((v >> 64) & 0xff) as u8);
    buf.push(((v >> 56) & 0xff) as u8);
    buf.push(((v >> 48) & 0xff) as u8);
    buf.push(((v >> 40) & 0xff) as u8);
    buf.push(((v >> 32) & 0xff) as u8);
    buf.push(((v >> 24) & 0xff) as u8);
    buf.push(((v >> 16) & 0xff) as u8);
    buf.push(((v >> 8) & 0xff) as u8);
    buf.push((v & 0xff) as u8);
    proof {
        assert(buf@ =~= old(buf)@ + be16(v));
    }
}

// --- Readers: decode an integer at a position of a byte vector ---

/// Reads the big-endian `u16` at `pos`.
pub fn read_u16(data: &Vec<u8>, pos: usize) -> (r: u16)
    requires
        pos + 2 <= data@.len(),
    ensures
        r == spec_u16_at(data@, pos as int),
{
    let n = data.len();
    proof {
        assert(pos + 2 <= n);
    }
    ((data[pos] as u16) << 8u16) | (data[pos + 1] as u16)
}

/// Reads the big-endian `u32` at `pos`.
pub fn read_u32(data: &Vec<u8>, pos: usize) -> (r: u32)
    requires
        pos + 4 <= data@.len(),
    ensures
        r == spec_u32_at(data@, pos as int),
{
    let n = data.len();
    proof {
        assert(pos + 4 <= n);
    }
    ((data[pos] as u32) << 24u32) | ((data[pos + 1] as u32) << 16u32) | ((data[pos
        + 2] as u32) << 8u32) | (data[pos + 3] as u32)
}

/// Reads the big-endian two's-complement `i32` at `pos`.
pub fn read_i32(data: &Vec<u8>, pos: usize) -> (r: i32)
    requires
        pos + 4 <= data@.len(),
    ensures
        r == spec_i32_at(data@, pos as int),
{
    let u = read_u32(data, pos);
    #[verifier::truncate] (u as i32)
}

/// Appends all of `src` to `buf`.
pub fn append_bytes(buf: &mut Vec<u8>, src: &Vec<u8>)
    ensures
        final(buf)@ == old(buf)@ + src@,
{
    let mut i: usize = 0;
    while i < src.len()
        invariant
            i <= src@.len(),
            buf@ == old(buf)@ + src@.subrange(0, i as int),
        decreases src@.len() - i,
    {
        buf.push(src[i]);
        i = i + 1;
        proof {
            assert(buf@ =~= old(buf)@ + src@.subrange(0, i as int));
        }
    }
    proof {
        assert(buf@ =~= old(buf)@ + src@);
    }
}

/// Copies `data[start..end]` into a fresh vector.
pub fn subvec(data: &Vec<u8>, start: usize, end: usize) -> (r: Vec<u8>)
    requires
        start <= end,
        end <= data@.len(),
    ensures
        r@ == data@.subrange(start as int, end as int),
{
    let mut r: Vec<u8> = Vec::new();
    let mut i: usize = start;
    while i < end
        invariant
            start <= i <= end,
            end <= data@.len(),
            r@ == data@.subrange(start as int, i as int),
        decreases end - i,
    {
        r.push(data[i]);
        i = i + 1;
        proof {
            assert(r@ =~= data@.subrange(start as int, i as int));
        }
    }
    r
}

// --- UTF-8 decoding ---

/// Relies on `String::from_utf8`: it returns the string whose characters the
/// bytes encode exactly when the bytes are valid UTF-8, per vstd's UTF-8 model.
#[verifier::external_body]
pub fn utf8_to_string(bytes: Vec<u8>) -> (r: Option<String>)
    ensures
        r is Some <==> valid_utf8(bytes@),
        r matches Some(s) ==> s@ == decode_utf8(bytes@),
{
    String::from_utf8(bytes).ok()
}

} // verus!
