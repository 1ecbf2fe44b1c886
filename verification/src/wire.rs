//! Little-endian integer conversions shared by every message layout.
//!
//! Multi-byte integers travel least-significant byte first. Signed samples
//! travel as their two's-complement 16-bit pattern.

use vstd::prelude::*;

verus! {

/// The low byte of a 16-bit value.
pub open spec fn lo_byte(w: u16) -> u8 {
    (w % 256) as u8
}

/// The high byte of a 16-bit value.
pub open spec fn hi_byte(w: u16) -> u8 {
    (w / 256) as u8
}

/// The two little-endian bytes of a 16-bit value, low byte first.
pub open spec fn le16_bytes(w: u16) -> Seq<u8> {
    seq![lo_byte(w), hi_byte(w)]
}

/// The 16-bit value read from two little-endian bytes.
pub open spec fn le16_value(b0: u8, b1: u8) -> u16 {
    (b0 + 256 * b1) as u16
}

/// The four little-endian bytes of a 32-bit value, low byte first.
pub open spec fn le32_bytes(w: u32) -> Seq<u8> {
    seq![
        (w % 256) as u8,
        ((w / 256) % 256) as u8,
        ((w / 0x10000) % 256) as u8,
        ((w / 0x1000000) % 256) as u8,
    ]
}

/// The 32-bit value read from four little-endian bytes.
pub open spec fn le32_value(b0: u8, b1: u8, b2: u8, b3: u8) -> u32 {
    (b0 + 256 * b1 + 0x10000 * b2 + 0x1000000 * b3) as u32
}

/// The unsigned 16-bit pattern that carries a signed sample on the wire
/// (two's complement).
pub open spec fn i16_to_wire(v: i16) -> u16 {
    if v >= 0 {
        v as u16
    } else {
        (v + 0x10000) as u16
    }
}

/// The signed sample carried by an unsigned 16-bit wire pattern
/// (two's complement).
pub open spec fn wire_to_i16(w: u16) -> i16 {
    if w < 0x8000 {
        w as i16
    } else {
        (w - 0x10000) as i16
    }
}

/// Reading back the two little-endian bytes of a 16-bit value gives the
/// value itself.
pub proof fn lemma_le16_round_trip(w: u16)
    ensures
        le16_value(lo_byte(w), hi_byte(w)) == w,
{
}

/// Reading back the four little-endian bytes of a 32-bit value gives the
/// value itself.
pub proof fn lemma_le32_round_trip(w: u32)
    ensures
        le32_value(
            (w % 256) as u8,
            ((w / 256) % 256) as u8,
            ((w / 0x10000) % 256) as u8,
            ((w / 0x1000000) % 256) as u8,
        ) == w,
{
}

/// The two's-complement pattern of a sample decodes back to the sample.
pub proof fn lemma_i16_round_trip(v: i16)
    ensures
        wire_to_i16(i16_to_wire(v)) == v,
{
}

/// Splits a 16-bit value into its low byte.
pub fn u16_lo(w: u16) -> (r: u8)
    ensures
        r == lo_byte(w),
{
    (w % 256) as u8
}

/// Splits a 16-bit value into its high byte.
pub fn u16_hi(w: u16) -> (r: u8)
    ensures
        r == hi_byte(w),
{
    (w / 256) as u8
}

/// Joins two little-endian bytes into a 16-bit value.
pub fn u16_from_le(b0: u8, b1: u8) -> (r: u16)
    ensures
        r == le16_value(b0, b1),
{
    b0 as u16 + 256 * (b1 as u16)
}

/// Joins four little-endian bytes into a 32-bit value.
pub fn u32_from_le(b0: u8, b1: u8, b2: u8, b3: u8) -> (r: u32)
    ensures
        r == le32_value(b0, b1, b2, b3),
{
    b0 as u32 + 256 * (b1 as u32) + 0x10000 * (b2 as u32) + 0x1000000 * (b3 as u32)
}

/// Turns a signed sample into its 16-bit wire pattern.
pub fn i16_to_u16(v: i16) -> (r: u16)
    ensures
        r == i16_to_wire(v),
{
    if v >= 0 {
        v as u16
    } else {
        ((v as i32) + 0x10000) as u16
    }
}

/// Turns a 16-bit wire pattern back into the signed sample it carries.
pub fn u16_to_i16(w: u16) -> (r: i16)
    ensures
        r == wire_to_i16(w),
{
    if w < 0x8000 {
        w as i16
    } else {
        ((w as i32) - 0x10000) as i16
    }
}

} // verus!
