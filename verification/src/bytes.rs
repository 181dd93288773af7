//! Big-endian byte-level primitives of the codec: serializer and parser
//! specifications for the fixed-width integers both formats use, their
//! executable counterparts, and the round-trip lemmas the codec's proofs
//! are built from.

use vstd::prelude::*;

verus! {

/// One byte on the wire.
pub open spec fn ser_u8(x: u8) -> Seq<u8> {
    seq![x]
}

/// A u16, big-endian.
pub open spec fn ser_u16(x: u16) -> Seq<u8> {
    seq![(x >> 8) as u8, x as u8]
}

/// A u32, big-endian.
pub open spec fn ser_u32(x: u32) -> Seq<u8> {
    seq![(x >> 24) as u8, (x >> 16) as u8, (x >> 8) as u8, x as u8]
}

/// The unsigned twin of an i16, by two's complement.
pub open spec fn i16_bits(x: i16) -> u16 {
    if x >= 0 {
        x as u16
    } else {
        (x + 0x10000) as u16
    }
}

/// The i16 a two's-complement u16 denotes.
pub open spec fn u16_sign(x: u16) -> i16 {
    if x < 0x8000 {
        x as i16
    } else {
        (x - 0x10000) as i16
    }
}

/// The unsigned twin of an i32, by two's complement.
pub open spec fn i32_bits(x: i32) -> u32 {
    if x >= 0 {
        x as u32
    } else {
        (x + 0x100000000) as u32
    }
}

/// The i32 a two's-complement u32 denotes.
pub open spec fn u32_sign(x: u32) -> i32 {
    if x < 0x80000000 {
        x as i32
    } else {
        (x - 0x100000000) as i32
    }
}

/// An i16, big-endian two's complement.
pub open spec fn ser_i16(x: i16) -> Seq<u8> {
    ser_u16(i16_bits(x))
}

/// An i32, big-endian two's complement.
pub open spec fn ser_i32(x: i32) -> Seq<u8> {
    ser_u32(i32_bits(x))
}

/// The u16 starting at `pos`, big-endian.
pub open spec fn parse_u16_at(b: Seq<u8>, pos: int) -> u16 {
    ((b[pos] as u16) << 8) | (b[pos + 1] as u16)
}

/// The u32 starting at `pos`, big-endian.
pub open spec fn parse_u32_at(b: Seq<u8>, pos: int) -> u32 {
    ((b[pos] as u32) << 24) | ((b[pos + 1] as u32) << 16) | ((b[pos + 2] as u32) << 8) | (b[pos
        + 3] as u32)
}

/// The i16 starting at `pos`.
pub open spec fn parse_i16_at(b: Seq<u8>, pos: int) -> i16 {
    u16_sign(parse_u16_at(b, pos))
}

/// The i32 starting at `pos`.
pub open spec fn parse_i32_at(b: Seq<u8>, pos: int) -> i32 {
    u32_sign(parse_u32_at(b, pos))
}

/// Splitting a u16 into its two bytes and reading them back is the
/// identity.
pub proof fn lemma_u16_roundtrip(x: u16)
    ensures
        (((x >> 8) as u8 as u16) << 8) | (x as u8 as u16) == x,
{
    assert((((x >> 8) as u8 as u16) << 8) | (x as u8 as u16) == x) by (bit_vector);
}

/// Splitting a u32 into its four bytes and reading them back is the
/// identity.
pub proof fn lemma_u32_roundtrip(x: u32)
    ensures
        (((x >> 24) as u8 as u32) << 24) | (((x >> 16) as u8 as u32) << 16) | (((x
            >> 8) as u8 as u32) << 8) | (x as u8 as u32) == x,
{
    assert((((x >> 24) as u8 as u32) << 24) | (((x >> 16) as u8 as u32) << 16) | (((x
        >> 8) as u8 as u32) << 8) | (x as u8 as u32) == x) by (bit_vector);
}

/// The two's-complement pairing of i16 and u16 is a bijection.
pub proof fn lemma_i16_roundtrip(x: i16)
    ensures
        u16_sign(i16_bits(x)) == x,
{
}

/// The two's-complement pairing of i32 and u32 is a bijection.
pub proof fn lemma_i32_roundtrip(x: i32)
    ensures
        u32_sign(i32_bits(x)) == x,
{
}

/// Reading a serialized u16 back from any buffer that holds it.
pub proof fn lemma_parse_ser_u16(b: Seq<u8>, pos: int, x: u16)
    requires
        0 <= pos,
        pos + 2 <= b.len(),
        b.subrange(pos, pos + 2) == ser_u16(x),
    ensures
        parse_u16_at(b, pos) == x,
{
    assert(b[pos] == b.subrange(pos, pos + 2)[0]);
    assert(b[pos + 1] == b.subrange(pos, pos + 2)[1]);
    lemma_u16_roundtrip(x);
}

/// Reading a serialized u32 back from any buffer that holds it.
pub proof fn lemma_parse_ser_u32(b: Seq<u8>, pos: int, x: u32)
    requires
        0 <= pos,
        pos + 4 <= b.len(),
        b.subrange(pos, pos + 4) == ser_u32(x),
    ensures
        parse_u32_at(b, pos) == x,
{
    assert(b[pos] == b.subrange(pos, pos + 4)[0]);
    assert(b[pos + 1] == b.subrange(pos, pos + 4)[1]);
    assert(b[pos + 2] == b.subrange(pos, pos + 4)[2]);
    assert(b[pos + 3] == b.subrange(pos, pos + 4)[3]);
    lemma_u32_roundtrip(x);
}

/// Reading a serialized i16 back from any buffer that holds it.
pub proof fn lemma_parse_ser_i16(b: Seq<u8>, pos: int, x: i16)
    requires
        0 <= pos,
        pos + 2 <= b.len(),
        b.subrange(pos, pos + 2) == ser_i16(x),
    ensures
        parse_i16_at(b, pos) == x,
{
    lemma_parse_ser_u16(b, pos, i16_bits(x));
    lemma_i16_roundtrip(x);
}

/// Reading a serialized i32 back from any buffer that holds it.
pub proof fn lemma_parse_ser_i32(b: Seq<u8>, pos: int, x: i32)
    requires
        0 <= pos,
        pos + 4 <= b.len(),
        b.subrange(pos, pos + 4) == ser_i32(x),
    ensures
        parse_i32_at(b, pos) == x,
{
    lemma_parse_ser_u32(b, pos, i32_bits(x));
    lemma_i32_roundtrip(x);
}

/// Append one byte.
pub fn push_u8(out: &mut Vec<u8>, x: u8)
    ensures
        final(out)@ == old(out)@ + ser_u8(x),
{
    out.push(x);
    proof {
        assert(final(out)@ =~= old(out)@ + ser_u8(x));
    }
}

/// Append a u16, big-endian.
pub fn push_u16(out: &mut Vec<u8>, x: u16)
    ensures
        final(out)@ == old(out)@ + ser_u16(x),
{
    out.push((x >> 8) as u8);
    out.push(x as u8);
    proof {
        assert(final(out)@ =~= old(out)@ + ser_u16(x));
    }
}

/// Append a u32, big-endian.
pub fn push_u32(out: &mut Vec<u8>, x: u32)
    ensures
        final(out)@ == old(out)@ + ser_u32(x),
{
    out.push((x >> 24) as u8);
    out.push((x >> 16) as u8);
    out.push((x >> 8) as u8);
    out.push(x as u8);
    proof {
        assert(final(out)@ =~= old(out)@ + ser_u32(x));
    }
}

/// Append an i16, big-endian two's complement.
pub fn push_i16(out: &mut Vec<u8>, x: i16)
    ensures
        final(out)@ == old(out)@ + ser_i16(x),
{
    let bits: u16 = if x >= 0 {
        x as u16
    } else {
        ((x as i32) + 0x10000) as u16
    };
    proof {
        assert(bits == i16_bits(x));
    }
    push_u16(out, bits);
}

/// Append an i32, big-endian two's complement.
pub fn push_i32(out: &mut Vec<u8>, x: i32)
    ensures
        final(out)@ == old(out)@ + ser_i32(x),
{
    let bits: u32 = if x >= 0 {
        x as u32
    } else {
        ((x as i64) + 0x100000000i64) as u32
    };
    proof {
        assert(bits == i32_bits(x));
    }
    push_u32(out, bits);
}

/// Read one byte.
pub fn read_u8(b: &Vec<u8>, pos: usize) -> (r: u8)
    requires
        pos < b@.len(),
    ensures
        r == b@[pos as int],
{
    b[pos]
}

/// Read a u16, big-endian.
pub fn read_u16(b: &Vec<u8>, pos: usize) -> (r: u16)
    requires
        pos + 2 <= b@.len(),
    ensures
        r == parse_u16_at(b@, pos as int),
{
    proof {
        vstd::std_specs::vec::axiom_spec_len(b);
    }
    ((b[pos] as u16) << 8) | (b[pos + 1] as u16)
}

/// Read a u32, big-endian.
pub fn read_u32(b: &Vec<u8>, pos: usize) -> (r: u32)
    requires
        pos + 4 <= b@.len(),
    ensures
        r == parse_u32_at(b@, pos as int),
{
    proof {
        vstd::std_specs::vec::axiom_spec_len(b);
    }
    ((b[pos] as u32) << 24) | ((b[pos + 1] as u32) << 16) | ((b[pos + 2] as u32) << 8) | (b[pos
        + 3] as u32)
}

/// Read an i16, big-endian two's complement.
pub fn read_i16(b: &Vec<u8>, pos: usize) -> (r: i16)
    requires
        pos + 2 <= b@.len(),
    ensures
        r == parse_i16_at(b@, pos as int),
{
    let x = read_u16(b, pos);
    if x < 0x8000 {
        x as i16
    } else {
        ((x as i32) - 0x10000) as i16
    }
}

/// Read an i32, big-endian two's complement.
pub fn read_i32(b: &Vec<u8>, pos: usize) -> (r: i32)
    requires
        pos + 4 <= b@.len(),
    ensures
        r == parse_i32_at(b@, pos as int),
{
    let x = read_u32(b, pos);
    if x < 0x80000000 {
        x as i32
    } else {
        ((x as i64) - 0x100000000i64) as i32
    }
}

} // verus!
