//! Fixed-width big-endian field readers and sign-extension helpers.
//!
//! Every multi-byte field of the wire format is big-endian. The spec
//! functions here give the numeric value of such a field directly; the
//! executable readers are proved to return exactly that value.

use vstd::prelude::*;
use vstd::slice::slice_index_get;

verus! {

/// The unsigned value of a two-byte big-endian field.
pub open spec fn be16(s: Seq<u8>) -> u16
    recommends
        s.len() == 2,
{
    (s[0] * 0x100 + s[1]) as u16
}

/// The unsigned value of a four-byte big-endian field.
pub open spec fn be32(s: Seq<u8>) -> u32
    recommends
        s.len() == 4,
{
    (s[0] * 0x100_0000 + s[1] * 0x1_0000 + s[2] * 0x100 + s[3]) as u32
}

/// The unsigned value of an eight-byte big-endian field.
pub open spec fn be64(s: Seq<u8>) -> u64
    recommends
        s.len() == 8,
{
    (s[0] * 0x100_0000_0000_0000 + s[1] * 0x1_0000_0000_0000 + s[2] * 0x100_0000_0000
        + s[3] * 0x1_0000_0000 + s[4] * 0x100_0000 + s[5] * 0x1_0000 + s[6] * 0x100
        + s[7]) as u64
}

/// A byte reinterpreted as an 8-bit two's-complement integer, widened to 64 bits.
pub open spec fn sign_extend8(b: u8) -> i64 {
    if b < 0x80 {
        b as i64
    } else {
        (b - 0x100) as i64
    }
}

/// A 16-bit word reinterpreted as a 16-bit two's-complement integer, widened to 64 bits.
pub open spec fn sign_extend16(v: u16) -> i64 {
    if v < 0x8000 {
        v as i64
    } else {
        (v - 0x1_0000) as i64
    }
}

/// A 32-bit word reinterpreted as a 32-bit two's-complement integer, widened to 64 bits.
pub open spec fn sign_extend32(v: u32) -> i64 {
    if v < 0x8000_0000 {
        v as i64
    } else {
        (v - 0x1_0000_0000) as i64
    }
}

/// A 64-bit word reinterpreted as a 64-bit two's-complement integer.
pub open spec fn bits_as_i64(v: u64) -> i64 {
    if v < 0x8000_0000_0000_0000 {
        v as i64
    } else {
        (v - 0x1_0000_0000_0000_0000) as i64
    }
}

/// Reads a two-byte big-endian unsigned field.
pub fn read_be_u16(s: &[u8]) -> (r: u16)
    requires
        s@.len() == 2,
    ensures
        r == be16(s@),
{
    let b0: u8 = *slice_index_get(s, 0);
    let b1: u8 = *slice_index_get(s, 1);
    (b0 as u16) * 0x100 + (b1 as u16)
}

/// Reads a four-byte big-endian unsigned field.
pub fn read_be_u32(s: &[u8]) -> (r: u32)
    requires
        s@.len() == 4,
    ensures
        r == be32(s@),
{
    let b0: u8 = *slice_index_get(s, 0);
    let b1: u8 = *slice_index_get(s, 1);
    let b2: u8 = *slice_index_get(s, 2);
    let b3: u8 = *slice_index_get(s, 3);
    (b0 as u32) * 0x100_0000 + (b1 as u32) * 0x1_0000 + (b2 as u32) * 0x100 + (b3 as u32)
}

/// Reads an eight-byte big-endian unsigned field.
pub fn read_be_u64(s: &[u8]) -> (r: u64)
    requires
        s@.len() == 8,
    ensures
        r == be64(s@),
{
    let b0: u8 = *slice_index_get(s, 0);
    let b1: u8 = *slice_index_get(s, 1);
    let b2: u8 = *slice_index_get(s, 2);
    let b3: u8 = *slice_index_get(s, 3);
    let b4: u8 = *slice_index_get(s, 4);
    let b5: u8 = *slice_index_get(s, 5);
    let b6: u8 = *slice_index_get(s, 6);
    let b7: u8 = *slice_index_get(s, 7);
    (b0 as u64) * 0x100_0000_0000_0000 + (b1 as u64) * 0x1_0000_0000_0000 + (b2 as u64)
        * 0x100_0000_0000 + (b3 as u64) * 0x1_0000_0000 + (b4 as u64) * 0x100_0000 + (b5 as u64)
        * 0x1_0000 + (b6 as u64) * 0x100 + (b7 as u64)
}

/// Widens a byte to the 64-bit signed value it encodes in two's complement.
pub fn extend_i8(b: u8) -> (r: i64)
    ensures
        r == sign_extend8(b),
{
    if b < 0x80 {
        b as i64
    } else {
        (b as i64) - 0x100
    }
}

/// Widens a 16-bit word to the 64-bit signed value it encodes in two's complement.
pub fn extend_i16(v: u16) -> (r: i64)
    ensures
        r == sign_extend16(v),
{
    if v < 0x8000 {
        v as i64
    } else {
        (v as i64) - 0x1_0000
    }
}

/// Widens a 32-bit word to the 64-bit signed value it encodes in two's complement.
pub fn extend_i32(v: u32) -> (r: i64)
    ensures
        r == sign_extend32(v),
{
    if v < 0x8000_0000 {
        v as i64
    } else {
        (v as i64) - 0x1_0000_0000
    }
}

/// Reinterprets a 64-bit word as a 64-bit two's-complement signed integer.
pub fn reinterpret_i64(v: u64) -> (r: i64)
    ensures
        r == bits_as_i64(v),
{
    if v < 0x8000_0000_0000_0000 {
        v as i64
    } else {
        ((v - 0x8000_0000_0000_0000) as i64) + i64::MIN
    }
}

} // verus!
