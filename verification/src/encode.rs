//! A companion encoder for unsigned integers.
//!
//! The wire format encodes an unsigned integer at the smallest width that
//! holds it: in the tag byte itself up to 0x7f, and behind the one-, two-,
//! four- or eight-byte tags above that. The decoder's round-trip law is
//! stated against [`spec_encode_unsigned`]; [`encode_unsigned`] produces
//! those bytes for callers and tests.

use vstd::prelude::*;

verus! {

/// The canonical minimal-width encoding of an unsigned 64-bit integer.
pub open spec fn spec_encode_unsigned(v: u64) -> Seq<u8> {
    if v <= 0x7f {
        seq![v as u8]
    } else if v <= 0xff {
        seq![0xccu8, v as u8]
    } else if v <= 0xffff {
        seq![0xcdu8, ((v / 0x100) % 0x100) as u8, (v % 0x100) as u8]
    } else if v <= 0xffff_ffff {
        seq![
            0xceu8,
            ((v / 0x100_0000) % 0x100) as u8,
            ((v / 0x1_0000) % 0x100) as u8,
            ((v / 0x100) % 0x100) as u8,
            (v % 0x100) as u8,
        ]
    } else {
        seq![
            0xcfu8,
            ((v / 0x100_0000_0000_0000) % 0x100) as u8,
            ((v / 0x1_0000_0000_0000) % 0x100) as u8,
            ((v / 0x100_0000_0000) % 0x100) as u8,
            ((v / 0x1_0000_0000) % 0x100) as u8,
            ((v / 0x100_0000) % 0x100) as u8,
            ((v / 0x1_0000) % 0x100) as u8,
            ((v / 0x100) % 0x100) as u8,
            (v % 0x100) as u8,
        ]
    }
}

/// Encodes an unsigned 64-bit integer at its canonical minimal width.
pub fn encode_unsigned(v: u64) -> (out: Vec<u8>)
    ensures
        out@ == spec_encode_unsigned(v),
{
    let mut out: Vec<u8> = Vec::new();
    if v <= 0x7f {
        out.push(v as u8);
    } else if v <= 0xff {
        out.push(0xcc);
        out.push(v as u8);
    } else if v <= 0xffff {
        out.push(0xcd);
        out.push(((v / 0x100) % 0x100) as u8);
        out.push((v % 0x100) as u8);
    } else if v <= 0xffff_ffff {
        out.push(0xce);
        out.push(((v / 0x100_0000) % 0x100) as u8);
        out.push(((v / 0x1_0000) % 0x100) as u8);
        out.push(((v / 0x100) % 0x100) as u8);
        out.push((v % 0x100) as u8);
    } else {
        out.push(0xcf);
        out.push(((v / 0x100_0000_0000_0000) % 0x100) as u8);
        out.push(((v / 0x1_0000_0000_0000) % 0x100) as u8);
        out.push(((v / 0x100_0000_0000) % 0x100) as u8);
        out.push(((v / 0x1_0000_0000) % 0x100) as u8);
        out.push(((v / 0x100_0000) % 0x100) as u8);
        out.push(((v / 0x1_0000) % 0x100) as u8);
        out.push(((v / 0x100) % 0x100) as u8);
        out.push((v % 0x100) as u8);
    }
    proof {
        assert(out@ =~= spec_encode_unsigned(v));
    }
    out
}

} // verus!
