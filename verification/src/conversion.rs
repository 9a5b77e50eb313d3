//! Little-endian byte encodings of fixed-point values and unpacking of
//! hardware capture words.

use vstd::prelude::*;
use crate::fixed_point::Q16;

verus! {

/// The unsigned value of four little-endian bytes.
pub open spec fn le_u32_value(b: Seq<u8>) -> int {
    b[0] + 0x100 * b[1] + 0x1_0000 * b[2] + 0x100_0000 * b[3]
}

/// The unsigned value of eight little-endian bytes.
pub open spec fn le_u64_value(b: Seq<u8>) -> int {
    le_u32_value(b) + 0x1_0000_0000 * le_u32_value(b.subrange(4, 8))
}

/// The two's-complement bit pattern of `v` on `2^n` values.
pub open spec fn twos_complement(v: int, modulus: int) -> int {
    if v < 0 { v + modulus } else { v }
}

/// The signed value of an unsigned bit pattern on `modulus` values.
pub open spec fn from_twos_complement(u: int, modulus: int) -> int {
    if u >= modulus / 2 { u - modulus } else { u }
}

/// The little-endian bytes of a `u32`.
pub fn u32_to_le(v: u32) -> (r: [u8; 4])
    ensures
        le_u32_value(r@) == v,
{
    let r = [
        (v % 0x100) as u8,
        (v / 0x100 % 0x100) as u8,
        (v / 0x1_0000 % 0x100) as u8,
        (v / 0x100_0000) as u8,
    ];
    r
}

/// The `u32` of four little-endian bytes.
pub fn le_to_u32(b: [u8; 4]) -> (r: u32)
    ensures
        r == le_u32_value(b@),
{
    b[0] as u32 + 0x100 * (b[1] as u32) + 0x1_0000 * (b[2] as u32) + 0x100_0000 * (b[3] as u32)
}

/// The little-endian bytes of a `u64`.
pub fn u64_to_le(v: u64) -> (r: [u8; 8])
    ensures
        le_u64_value(r@) == v,
{
    let lo = u32_to_le((v % 0x1_0000_0000) as u32);
    let hi = u32_to_le((v / 0x1_0000_0000) as u32);
    let r = [lo[0], lo[1], lo[2], lo[3], hi[0], hi[1], hi[2], hi[3]];
    assert(r@.subrange(4, 8) =~= hi@);
    assert(le_u32_value(r@) == le_u32_value(lo@));
    r
}

/// The `u64` of eight little-endian bytes.
pub fn le_to_u64(b: [u8; 8]) -> (r: u64)
    ensures
        r == le_u64_value(b@),
{
    let lo = le_to_u32([b[0], b[1], b[2], b[3]]);
    let hi = le_to_u32([b[4], b[5], b[6], b[7]]);
    assert(b@.subrange(4, 8) =~= seq![b[4], b[5], b[6], b[7]]);
    lo as u64 + 0x1_0000_0000 * (hi as u64)
}

/// The little-endian two's-complement bytes of an `i32`.
pub fn i32_to_le(v: i32) -> (r: [u8; 4])
    ensures
        le_u32_value(r@) == twos_complement(v as int, 0x1_0000_0000),
{
    let u: u32 = if v < 0 { ((v as i64) + 0x1_0000_0000i64) as u32 } else { v as u32 };
    u32_to_le(u)
}

/// The `i32` of four little-endian two's-complement bytes.
pub fn le_to_i32(b: [u8; 4]) -> (r: i32)
    ensures
        r == from_twos_complement(le_u32_value(b@), 0x1_0000_0000),
{
    let u = le_to_u32(b);
    if u >= 0x8000_0000 { ((u as i64) - 0x1_0000_0000i64) as i32 } else { u as i32 }
}

/// The little-endian two's-complement bytes of an `i64`.
pub fn i64_to_le(v: i64) -> (r: [u8; 8])
    ensures
        le_u64_value(r@) == twos_complement(v as int, 0x1_0000_0000_0000_0000),
{
    let u: u64 = if v < 0 {
        ((v - i64::MIN) as u64) + 0x8000_0000_0000_0000u64
    } else {
        v as u64
    };
    u64_to_le(u)
}

/// The `i64` of eight little-endian two's-complement bytes.
pub fn le_to_i64(b: [u8; 8]) -> (r: i64)
    ensures
        r == from_twos_complement(le_u64_value(b@), 0x1_0000_0000_0000_0000),
{
    let u = le_to_u64(b);
    if u >= 0x8000_0000_0000_0000 {
        ((u - 0x8000_0000_0000_0000u64) as i64) + i64::MIN
    } else {
        u as i64
    }
}

/// A `Q16` from the little-endian bytes of its raw bits.
pub fn bytes_to_i16f16(bytes: [u8; 4]) -> (r: Q16)
    ensures
        r.bits == from_twos_complement(le_u32_value(bytes@), 0x1_0000_0000),
{
    Q16::from_bits(le_to_i32(bytes))
}

/// The little-endian bytes of the raw bits of a `Q16`.
pub fn i16f16_to_bytes(value: Q16) -> (r: [u8; 4])
    ensures
        le_u32_value(r@) == twos_complement(value.bits as int, 0x1_0000_0000),
{
    i32_to_le(value.bits)
}

/// Splits a capture word `(period << 16) | active` into `(period, active)`
/// ticks: the period is the high half-word and the active time the low one.
pub fn unpack_dma_capture(word: u32) -> (r: (u64, u64))
    ensures
        r.0 == word / 0x1_0000,
        r.1 == word % 0x1_0000,
        r.0 < 0x1_0000,
        r.1 < 0x1_0000,
{
    let period_ticks = (word / 0x1_0000) as u64;
    let active_ticks = (word % 0x1_0000) as u64;
    (period_ticks, active_ticks)
}

/// The half-word programmed into flash at byte offset `i` of `data`: bytes
/// `i` and `i + 1`, little-endian, with the erased value 0xFF standing in
/// for a missing last byte.
pub fn flash_half_word(data: &[u8], i: usize) -> (r: u16)
    requires
        i < data@.len(),
    ensures
        r == data@[i as int] + 0x100 * (if i + 1 < data@.len() { data@[i + 1] as int } else { 0xFF }),
{
    let hi: u16 = if i < data.len() - 1 { data[i + 1] as u16 } else { 0xFF };
    data[i] as u16 + 0x100 * hi
}

/// Two's complement on `2^32` values undoes its inverse, both ways.
pub proof fn lemma_twos_complement_32(v: int, u: int)
    ensures
        i32::MIN <= v <= i32::MAX ==> from_twos_complement(twos_complement(v, 0x1_0000_0000), 0x1_0000_0000) == v,
        0 <= u < 0x1_0000_0000 ==> twos_complement(from_twos_complement(u, 0x1_0000_0000), 0x1_0000_0000) == u,
{
}

/// Two's complement on `2^64` values undoes its inverse, both ways.
pub proof fn lemma_twos_complement_64(v: int, u: int)
    ensures
        i64::MIN <= v <= i64::MAX ==> from_twos_complement(twos_complement(v, 0x1_0000_0000_0000_0000), 0x1_0000_0000_0000_0000) == v,
        0 <= u < 0x1_0000_0000_0000_0000 ==> twos_complement(from_twos_complement(u, 0x1_0000_0000_0000_0000), 0x1_0000_0000_0000_0000) == u,
{
}

/// Four bytes are determined by their little-endian value.
pub proof fn lemma_le_u32_injective(a: Seq<u8>, b: Seq<u8>)
    requires
        a.len() == 4,
        b.len() == 4,
        le_u32_value(a) == le_u32_value(b),
    ensures
        a == b,
{
    let v = le_u32_value(a);
    let qa2 = a[2] + 0x100 * a[3];
    let qa1 = a[1] + 0x100 * qa2;
    let qb2 = b[2] + 0x100 * b[3];
    let qb1 = b[1] + 0x100 * qb2;
    assert(v == qa1 * 0x100 + a[0]);
    assert(v == qb1 * 0x100 + b[0]);
    vstd::arithmetic::div_mod::lemma_fundamental_div_mod_converse(v, 0x100, qa1, a[0] as int);
    vstd::arithmetic::div_mod::lemma_fundamental_div_mod_converse(v, 0x100, qb1, b[0] as int);
    assert(qa1 == qa2 * 0x100 + a[1]);
    assert(qb1 == qb2 * 0x100 + b[1]);
    vstd::arithmetic::div_mod::lemma_fundamental_div_mod_converse(qa1, 0x100, qa2, a[1] as int);
    vstd::arithmetic::div_mod::lemma_fundamental_div_mod_converse(qa1, 0x100, qb2, b[1] as int);
    vstd::arithmetic::div_mod::lemma_fundamental_div_mod_converse(qa2, 0x100, a[3] as int, a[2] as int);
    vstd::arithmetic::div_mod::lemma_fundamental_div_mod_converse(qa2, 0x100, b[3] as int, b[2] as int);
    assert(a =~= b);
}

/// Eight bytes are determined by their little-endian value.
pub proof fn lemma_le_u64_injective(a: Seq<u8>, b: Seq<u8>)
    requires
        a.len() == 8,
        b.len() == 8,
        le_u64_value(a) == le_u64_value(b),
    ensures
        a == b,
{
    let v = le_u64_value(a);
    let a_lo = a.subrange(0, 4);
    let b_lo = b.subrange(0, 4);
    let a_hi = a.subrange(4, 8);
    let b_hi = b.subrange(4, 8);
    assert(le_u32_value(a) == le_u32_value(a_lo));
    assert(le_u32_value(b) == le_u32_value(b_lo));
    let la = le_u32_value(a_lo);
    let lb = le_u32_value(b_lo);
    assert(0 <= la < 0x1_0000_0000);
    assert(0 <= lb < 0x1_0000_0000);
    assert(v == le_u32_value(a_hi) * 0x1_0000_0000 + la);
    assert(v == le_u32_value(b_hi) * 0x1_0000_0000 + lb);
    vstd::arithmetic::div_mod::lemma_fundamental_div_mod_converse(v, 0x1_0000_0000, le_u32_value(a_hi), la);
    vstd::arithmetic::div_mod::lemma_fundamental_div_mod_converse(v, 0x1_0000_0000, le_u32_value(b_hi), lb);
    lemma_le_u32_injective(a_lo, b_lo);
    lemma_le_u32_injective(a_hi, b_hi);
    assert(a =~= a_lo + a_hi);
    assert(b =~= b_lo + b_hi);
}

/// Encoding a `Q16` as bytes and decoding the bytes gives the `Q16` back,
/// and decoding bytes then encoding the value gives the bytes back.
pub proof fn lemma_q16_bytes_roundtrip(v: Q16, bytes: Seq<u8>, encoded: Seq<u8>)
    requires
        bytes.len() == 4,
        encoded.len() == 4,
        le_u32_value(encoded) == twos_complement(
            from_twos_complement(le_u32_value(bytes), 0x1_0000_0000),
            0x1_0000_0000,
        ),
    ensures
        from_twos_complement(twos_complement(v.bits as int, 0x1_0000_0000), 0x1_0000_0000) == v.bits,
        encoded == bytes,
{
    lemma_twos_complement_32(v.bits as int, le_u32_value(bytes));
    lemma_le_u32_injective(encoded, bytes);
}

} // verus!
