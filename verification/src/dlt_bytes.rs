use vstd::prelude::*;

verus! {

/// The two bytes of a 16-bit value, most significant first.
pub open spec fn spec_u16_be(x: u16) -> Seq<u8> {
    seq![(x / 256) as u8, (x % 256) as u8]
}

/// The 16-bit value whose most significant byte is `hi`.
pub open spec fn spec_u16_from_be(hi: u8, lo: u8) -> u16 {
    (hi as int * 256 + lo as int) as u16
}

/// The four bytes of a 32-bit value, most significant first.
pub open spec fn spec_u32_be(x: u32) -> Seq<u8> {
    seq![
        (x / 0x100_0000) as u8,
        ((x / 0x1_0000) % 256) as u8,
        ((x / 0x100) % 256) as u8,
        (x % 256) as u8,
    ]
}

/// The four bytes of a 32-bit value, least significant first.
pub open spec fn spec_u32_le(x: u32) -> Seq<u8> {
    seq![
        (x % 256) as u8,
        ((x / 0x100) % 256) as u8,
        ((x / 0x1_0000) % 256) as u8,
        (x / 0x100_0000) as u8,
    ]
}

/// The four bytes of a 32-bit value in the order that `msbf` selects.
pub open spec fn spec_u32_bytes(x: u32, msbf: bool) -> Seq<u8> {
    if msbf {
        spec_u32_be(x)
    } else {
        spec_u32_le(x)
    }
}

/// The 32-bit value that the first four bytes of `b` hold, most significant first.
pub open spec fn spec_u32_from_be(b: Seq<u8>) -> u32
    recommends
        b.len() >= 4,
{
    (b[0] as int * 0x100_0000 + b[1] as int * 0x1_0000 + b[2] as int * 0x100 + b[3] as int) as u32
}

/// The 32-bit value that the first four bytes of `b` hold, least significant first.
pub open spec fn spec_u32_from_le(b: Seq<u8>) -> u32
    recommends
        b.len() >= 4,
{
    (b[3] as int * 0x100_0000 + b[2] as int * 0x1_0000 + b[1] as int * 0x100 + b[0] as int) as u32
}

/// The 32-bit value that the first four bytes of `b` hold in the order that `msbf` selects.
pub open spec fn spec_u32_from_bytes(b: Seq<u8>, msbf: bool) -> u32
    recommends
        b.len() >= 4,
{
    if msbf {
        spec_u32_from_be(b)
    } else {
        spec_u32_from_le(b)
    }
}

/// The two's complement bit pattern of a signed 32-bit value.
pub open spec fn spec_i32_bits(x: i32) -> u32 {
    if x >= 0 {
        x as u32
    } else {
        (x + 0x1_0000_0000) as u32
    }
}

/// The signed value of a two's complement bit pattern.
pub open spec fn spec_i32_from_bits(u: u32) -> i32 {
    if u < 0x8000_0000 {
        u as i32
    } else {
        (u - 0x1_0000_0000) as i32
    }
}

/// Reading back the bytes of a 32-bit value, in either order, gives the value.
pub proof fn lemma_u32_bytes_roundtrip(x: u32, msbf: bool)
    ensures
        spec_u32_bytes(x, msbf).len() == 4,
        spec_u32_from_bytes(spec_u32_bytes(x, msbf), msbf) == x,
{
}

/// Reading back the bytes of a 16-bit value gives the value.
pub proof fn lemma_u16_be_roundtrip(x: u16)
    ensures
        spec_u16_be(x).len() == 2,
        spec_u16_from_be(spec_u16_be(x)[0], spec_u16_be(x)[1]) == x,
{
}

/// The bit pattern of a signed value reads back as that value, and conversely.
pub proof fn lemma_i32_bits_roundtrip(x: i32, u: u32)
    ensures
        spec_i32_from_bits(spec_i32_bits(x)) == x,
        spec_i32_bits(spec_i32_from_bits(u)) == u,
{
}

/// Appends the two bytes of `x`, most significant first.
pub fn push_u16_be(out: &mut Vec<u8>, x: u16)
    ensures
        final(out)@ == old(out)@ + spec_u16_be(x),
{
    out.push((x / 256) as u8);
    out.push((x % 256) as u8);
    assert(out@ =~= old(out)@ + spec_u16_be(x));
}

/// Appends the four bytes of `x` in the order that `msbf` selects.
pub fn push_u32(out: &mut Vec<u8>, x: u32, msbf: bool)
    ensures
        final(out)@ == old(out)@ + spec_u32_bytes(x, msbf),
{
    let b3: u8 = (x / 0x100_0000) as u8;
    let b2: u8 = ((x / 0x1_0000) % 256) as u8;
    let b1: u8 = ((x / 0x100) % 256) as u8;
    let b0: u8 = (x % 256) as u8;
    if msbf {
        out.push(b3);
        out.push(b2);
        out.push(b1);
        out.push(b0);
    } else {
        out.push(b0);
        out.push(b1);
        out.push(b2);
        out.push(b3);
    }
    assert(out@ =~= old(out)@ + spec_u32_bytes(x, msbf));
}

/// Reads the 16-bit value stored most significant byte first at `offset`.
pub fn read_u16_be(buffer: &[u8], offset: usize) -> (x: u16)
    requires
        offset + 2 <= buffer.len(),
    ensures
        x == spec_u16_from_be(buffer@[offset as int], buffer@[offset + 1]),
{
    let hi: u16 = buffer[offset] as u16;
    let lo: u16 = buffer[offset + 1] as u16;
    hi * 256 + lo
}

/// Reads the 32-bit value stored at `offset` in the order that `msbf` selects.
pub fn read_u32(buffer: &[u8], offset: usize, msbf: bool) -> (x: u32)
    requires
        offset + 4 <= buffer.len(),
    ensures
        x == spec_u32_from_bytes(buffer@.subrange(offset as int, offset + 4), msbf),
{
    let a: u32 = buffer[offset] as u32;
    let b: u32 = buffer[offset + 1] as u32;
    let c: u32 = buffer[offset + 2] as u32;
    let d: u32 = buffer[offset + 3] as u32;
    if msbf {
        a * 0x100_0000 + b * 0x1_0000 + c * 0x100 + d
    } else {
        d * 0x100_0000 + c * 0x1_0000 + b * 0x100 + a
    }
}

/// The two's complement bit pattern of `x`.
pub fn i32_to_bits(x: i32) -> (u: u32)
    ensures
        u == spec_i32_bits(x),
{
    if x >= 0 {
        x as u32
    } else {
        (x as i64 + 0x1_0000_0000) as u32
    }
}

/// The signed value of the bit pattern `u`.
pub fn i32_from_bits(u: u32) -> (x: i32)
    ensures
        x == spec_i32_from_bits(u),
{
    if u < 0x8000_0000 {
        u as i32
    } else {
        (u as i64 - 0x1_0000_0000) as i32
    }
}

/// The two bytes of a 16-bit value, least significant first.
pub open spec fn spec_u16_le(x: u16) -> Seq<u8> {
    seq![(x % 256) as u8, (x / 256) as u8]
}

/// The eight bytes of a 64-bit value, least significant first.
pub open spec fn spec_u64_le(x: u64) -> Seq<u8> {
    spec_u32_le((x % 0x1_0000_0000) as u32) + spec_u32_le((x / 0x1_0000_0000) as u32)
}

/// The two's complement bit pattern of a signed 8-bit value.
pub open spec fn spec_i8_bits(x: i8) -> u8 {
    if x >= 0 {
        x as u8
    } else {
        (x + 0x100) as u8
    }
}

/// The two's complement bit pattern of a signed 16-bit value.
pub open spec fn spec_i16_bits(x: i16) -> u16 {
    if x >= 0 {
        x as u16
    } else {
        (x + 0x1_0000) as u16
    }
}

/// The two's complement bit pattern of a signed 64-bit value.
pub open spec fn spec_i64_bits(x: i64) -> u64 {
    if x >= 0 {
        x as u64
    } else {
        (x + 0x1_0000_0000_0000_0000) as u64
    }
}

/// Appends the two bytes of `x`, least significant first.
pub fn push_u16_le(out: &mut Vec<u8>, x: u16)
    ensures
        final(out)@ == old(out)@ + spec_u16_le(x),
{
    out.push((x % 256) as u8);
    out.push((x / 256) as u8);
    assert(out@ =~= old(out)@ + spec_u16_le(x));
}

/// Appends the eight bytes of `x`, least significant first.
pub fn push_u64_le(out: &mut Vec<u8>, x: u64)
    ensures
        final(out)@ == old(out)@ + spec_u64_le(x),
{
    push_u32(out, (x % 0x1_0000_0000) as u32, false);
    push_u32(out, (x / 0x1_0000_0000) as u32, false);
    assert(out@ =~= old(out)@ + spec_u64_le(x));
}

/// The two's complement bit pattern of `x`.
pub fn i8_to_bits(x: i8) -> (u: u8)
    ensures
        u == spec_i8_bits(x),
{
    if x >= 0 {
        x as u8
    } else {
        (x as i16 + 0x100) as u8
    }
}

/// The two's complement bit pattern of `x`.
pub fn i16_to_bits(x: i16) -> (u: u16)
    ensures
        u == spec_i16_bits(x),
{
    if x >= 0 {
        x as u16
    } else {
        (x as i32 + 0x1_0000) as u16
    }
}

/// The two's complement bit pattern of `x`.
pub fn i64_to_bits(x: i64) -> (u: u64)
    ensures
        u == spec_i64_bits(x),
{
    if x >= 0 {
        x as u64
    } else {
        (x as i128 + 0x1_0000_0000_0000_0000) as u64
    }
}

} // verus!
