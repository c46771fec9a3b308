//! The tag decoder: one call consumes exactly one encoded value from the
//! front of a byte slice.
//!
//! [`parse_next`] is a pure function of its input. On success it returns the
//! decoded [`Value`] together with the unconsumed remainder of the slice;
//! on failure it classifies the input as end-of-stream, permanently invalid,
//! or merely truncated ([`Error::NeedMoreData`]). The whole behaviour is
//! stated by the spec function [`spec_parse`], and `parse_next` is proved to
//! agree with it on every input.

use crate::bytes::{be16, be32, bits_as_i64, sign_extend16, sign_extend32, sign_extend8};
use crate::bytes::{be64, extend_i16, extend_i32, extend_i8, read_be_u16, read_be_u32, read_be_u64};
use crate::bytes::reinterpret_i64;
use vstd::prelude::*;
use vstd::slice::{slice_index_get, slice_subrange};

verus! {

/// Why a decode call failed.
#[derive(Debug)]
pub enum Error {
    /// End of stream: the input was empty where a new value was expected.
    Eos,
    /// Invalid encoding: no amount of further input can make it decodable.
    Invalid(&'static str),
    /// Needs more data; the hint, when present, is the exact number of
    /// additional bytes required to complete the field being read.
    NeedMoreData(Option<usize>),
}

/// The mathematical counterpart of [`Error`]: the reason of an invalid
/// encoding is carried as a character sequence.
pub enum SpecError {
    Eos,
    Invalid(Seq<char>),
    NeedMoreData(Option<usize>),
}

impl View for Error {
    type V = SpecError;

    open spec fn view(&self) -> SpecError {
        match self {
            Error::Eos => SpecError::Eos,
            Error::Invalid(why) => SpecError::Invalid(why@),
            Error::NeedMoreData(hint) => SpecError::NeedMoreData(*hint),
        }
    }
}

/// One decoded value.
///
/// Integers are widened to 64 bits regardless of their encoded width.
/// `Float` and `Double` carry the raw IEEE-754 bit pattern of the encoded
/// number; reinterpreting those bits as a floating-point number is left to
/// the caller, so that the decoder itself stays within exact integer
/// arithmetic. `String` and `Binary` borrow their payload from the input
/// buffer: no payload byte is copied.
#[derive(Debug)]
pub enum Value<'a> {
    Nil,
    Boolean(bool),
    Unsigned(u64),
    Signed(i64),
    /// The 32-bit IEEE-754 bit pattern of the encoded number.
    Float(u32),
    /// The 64-bit IEEE-754 bit pattern of the encoded number.
    Double(u64),
    String(&'a [u8]),
    Binary(&'a [u8]),
    /// The declared element count; the elements themselves are not consumed.
    Array(usize),
    /// The declared entry count; the entries themselves are not consumed.
    Mapping(usize),
}

/// The mathematical counterpart of [`Value`]: borrowed payloads become
/// byte sequences.
pub enum ValueModel {
    Nil,
    Boolean(bool),
    Unsigned(u64),
    Signed(i64),
    Float(u32),
    Double(u64),
    String(Seq<u8>),
    Binary(Seq<u8>),
    Array(usize),
    Mapping(usize),
}

impl<'a> View for Value<'a> {
    type V = ValueModel;

    open spec fn view(&self) -> ValueModel {
        match self {
            Value::Nil => ValueModel::Nil,
            Value::Boolean(b) => ValueModel::Boolean(*b),
            Value::Unsigned(v) => ValueModel::Unsigned(*v),
            Value::Signed(v) => ValueModel::Signed(*v),
            Value::Float(bits) => ValueModel::Float(*bits),
            Value::Double(bits) => ValueModel::Double(*bits),
            Value::String(payload) => ValueModel::String(payload@),
            Value::Binary(payload) => ValueModel::Binary(payload@),
            Value::Array(count) => ValueModel::Array(*count),
            Value::Mapping(count) => ValueModel::Mapping(*count),
        }
    }
}

/// Splitting a field of `n` bytes off the front of `data`: the field and the
/// remainder on success, and otherwise the exact shortfall.
pub open spec fn spec_field(data: Seq<u8>, n: int) -> Result<(Seq<u8>, Seq<u8>), SpecError>
    recommends
        0 <= n,
{
    if data.len() < n {
        Err(SpecError::NeedMoreData(Some((n - data.len()) as usize)))
    } else {
        Ok((data.take(n), data.skip(n)))
    }
}

/// What decoding one value from the front of `data` yields: the decoded
/// value and the unconsumed remainder, or the failure classification.
///
/// This is the complete specification of the wire format's tag space as far
/// as this decoder implements it; the extension family and the one reserved
/// tag are permanently invalid.
pub open spec fn spec_parse(data: Seq<u8>) -> Result<(ValueModel, Seq<u8>), SpecError> {
    if data.len() == 0 {
        Err(SpecError::Eos)
    } else {
        let c = data[0];
        let rest = data.skip(1);
        if c <= 0x7f {
            // positive fixint: the tag is the value
            Ok((ValueModel::Unsigned(c as u64), rest))
        } else if 0xe0 <= c {
            // negative fixint: the tag is the value, in two's complement
            Ok((ValueModel::Signed(sign_extend8(c)), rest))
        } else if c == 0xc0 {
            Ok((ValueModel::Nil, rest))
        } else if c == 0xc1 {
            Err(SpecError::Invalid("Reserved"@))
        } else if c == 0xc2 {
            Ok((ValueModel::Boolean(false), rest))
        } else if c == 0xc3 {
            Ok((ValueModel::Boolean(true), rest))
        } else if c == 0xcc {
            match spec_field(rest, 1) {
                Ok((item, rem)) => Ok((ValueModel::Unsigned(item[0] as u64), rem)),
                Err(e) => Err(e),
            }
        } else if c == 0xcd {
            match spec_field(rest, 2) {
                Ok((item, rem)) => Ok((ValueModel::Unsigned(be16(item) as u64), rem)),
                Err(e) => Err(e),
            }
        } else if c == 0xce {
            match spec_field(rest, 4) {
                Ok((item, rem)) => Ok((ValueModel::Unsigned(be32(item) as u64), rem)),
                Err(e) => Err(e),
            }
        } else if c == 0xcf {
            match spec_field(rest, 8) {
                Ok((item, rem)) => Ok((ValueModel::Unsigned(be64(item)), rem)),
                Err(e) => Err(e),
            }
        } else if c == 0xd0 {
            match spec_field(rest, 1) {
                Ok((item, rem)) => Ok((ValueModel::Signed(sign_extend8(item[0])), rem)),
                Err(e) => Err(e),
            }
        } else if c == 0xd1 {
            match spec_field(rest, 2) {
                Ok((item, rem)) => Ok((ValueModel::Signed(sign_extend16(be16(item))), rem)),
                Err(e) => Err(e),
            }
        } else if c == 0xd2 {
            match spec_field(rest, 4) {
                Ok((item, rem)) => Ok((ValueModel::Signed(sign_extend32(be32(item))), rem)),
                Err(e) => Err(e),
            }
        } else if c == 0xd3 {
            match spec_field(rest, 8) {
                Ok((item, rem)) => Ok((ValueModel::Signed(bits_as_i64(be64(item))), rem)),
                Err(e) => Err(e),
            }
        } else if c == 0xca {
            match spec_field(rest, 4) {
                Ok((item, rem)) => Ok((ValueModel::Float(be32(item)), rem)),
                Err(e) => Err(e),
            }
        } else if c == 0xcb {
            match spec_field(rest, 8) {
                Ok((item, rem)) => Ok((ValueModel::Double(be64(item)), rem)),
                Err(e) => Err(e),
            }
        } else if 0xa0 <= c && c <= 0xbf {
            // fixstr: the low five bits of the tag are the payload length
            match spec_field(rest, c - 0xa0) {
                Ok((item, rem)) => Ok((ValueModel::String(item), rem)),
                Err(e) => Err(e),
            }
        } else if c == 0xd9 {
            match spec_field(rest, 1) {
                Ok((lenb, mid)) => match spec_field(mid, lenb[0] as int) {
                    Ok((item, rem)) => Ok((ValueModel::String(item), rem)),
                    Err(e) => Err(e),
                },
                Err(e) => Err(e),
            }
        } else if c == 0xda {
            match spec_field(rest, 2) {
                Ok((lenb, mid)) => match spec_field(mid, be16(lenb) as int) {
                    Ok((item, rem)) => Ok((ValueModel::String(item), rem)),
                    Err(e) => Err(e),
                },
                Err(e) => Err(e),
            }
        } else if c == 0xdb {
            match spec_field(rest, 4) {
                Ok((lenb, mid)) => match spec_field(mid, be32(lenb) as int) {
                    Ok((item, rem)) => Ok((ValueModel::String(item), rem)),
                    Err(e) => Err(e),
                },
                Err(e) => Err(e),
            }
        } else if c == 0xc4 {
            match spec_field(rest, 1) {
                Ok((lenb, mid)) => match spec_field(mid, lenb[0] as int) {
                    Ok((item, rem)) => Ok((ValueModel::Binary(item), rem)),
                    Err(e) => Err(e),
                },
                Err(e) => Err(e),
            }
        } else if c == 0xc5 {
            match spec_field(rest, 2) {
                Ok((lenb, mid)) => match spec_field(mid, be16(lenb) as int) {
                    Ok((item, rem)) => Ok((ValueModel::Binary(item), rem)),
                    Err(e) => Err(e),
                },
                Err(e) => Err(e),
            }
        } else if c == 0xc6 {
            match spec_field(rest, 4) {
                Ok((lenb, mid)) => match spec_field(mid, be32(lenb) as int) {
                    Ok((item, rem)) => Ok((ValueModel::Binary(item), rem)),
                    Err(e) => Err(e),
                },
                Err(e) => Err(e),
            }
        } else if 0x90 <= c && c <= 0x9f {
            // fixarray: the low four bits of the tag are the element count
            Ok((ValueModel::Array((c - 0x90) as usize), rest))
        } else if c == 0xdc {
            match spec_field(rest, 2) {
                Ok((item, rem)) => Ok((ValueModel::Array(be16(item) as usize), rem)),
                Err(e) => Err(e),
            }
        } else if c == 0xdd {
            match spec_field(rest, 4) {
                Ok((item, rem)) => Ok((ValueModel::Array(be32(item) as usize), rem)),
                Err(e) => Err(e),
            }
        } else if 0x80 <= c && c <= 0x8f {
            // fixmap: the low four bits of the tag are the entry count
            Ok((ValueModel::Mapping((c - 0x80) as usize), rest))
        } else if c == 0xde {
            match spec_field(rest, 2) {
                Ok((item, rem)) => Ok((ValueModel::Mapping(be16(item) as usize), rem)),
                Err(e) => Err(e),
            }
        } else if c == 0xdf {
            match spec_field(rest, 4) {
                Ok((item, rem)) => Ok((ValueModel::Mapping(be32(item) as usize), rem)),
                Err(e) => Err(e),
            }
        } else {
            // the extension family and any unassigned tag
            Err(SpecError::Invalid("Invalid"@))
        }
    }
}

/// How an executable decode result corresponds to [`spec_parse`]: the same
/// outcome, with the value and the remainder taken up to their views.
pub open spec fn decode_matches<'a>(
    data: Seq<u8>,
    r: Result<(Value<'a>, &'a [u8]), Error>,
) -> bool {
    match r {
        Ok((v, rem)) => spec_parse(data) == Ok::<(ValueModel, Seq<u8>), SpecError>((v@, rem@)),
        Err(e) => spec_parse(data) == Err::<(ValueModel, Seq<u8>), SpecError>(e@),
    }
}

/// Splits a field of `n` bytes off the front of `data`, or reports the
/// exact shortfall without consuming anything.
fn take_field<'a>(data: &'a [u8], n: usize) -> (r: Result<(&'a [u8], &'a [u8]), Error>)
    ensures
        n <= data@.len() ==> (r matches Ok((item, rest)) && item@ == data@.take(n as int)
            && rest@ == data@.skip(n as int)),
        n > data@.len() ==> (r matches Err(e) && e@ == SpecError::NeedMoreData(
            Some((n - data@.len()) as usize),
        )),
{
    if data.len() < n {
        Err(Error::NeedMoreData(Some(n - data.len())))
    } else {
        let item = slice_subrange(data, 0, n);
        let rest = slice_subrange(data, n, data.len());
        proof {
            assert(item@ =~= data@.take(n as int));
            assert(rest@ =~= data@.skip(n as int));
        }
        Ok((item, rest))
    }
}

/// Decodes exactly one value from the front of `data`.
///
/// On success the returned slice is the unconsumed remainder of `data`;
/// `String` and `Binary` values borrow their payload from `data` itself.
/// On failure nothing is consumed: the call classifies the input as end of
/// stream, permanently invalid, or truncated with the exact shortfall of
/// the field being read. The result is exactly what [`spec_parse`] yields
/// on the bytes of `data`.
pub fn parse_next<'a>(data: &'a [u8]) -> (r: Result<(Value<'a>, &'a [u8]), Error>)
    ensures
        decode_matches(data@, r),
{
    if data.len() == 0 {
        return Err(Error::Eos);
    }
    let c: u8 = *slice_index_get(data, 0);
    let rest = slice_subrange(data, 1, data.len());
    proof {
        assert(rest@ =~= data@.skip(1));
    }
    if c <= 0x7f {
        Ok((Value::Unsigned(c as u64), rest))
    } else if 0xe0 <= c {
        Ok((Value::Signed(extend_i8(c)), rest))
    } else if c == 0xc0 {
        Ok((Value::Nil, rest))
    } else if c == 0xc1 {
        Err(Error::Invalid("Reserved"))
    } else if c == 0xc2 {
        Ok((Value::Boolean(false), rest))
    } else if c == 0xc3 {
        Ok((Value::Boolean(true), rest))
    } else if c == 0xcc {
        match take_field(rest, 1) {
            Ok((item, rem)) => Ok((Value::Unsigned(*slice_index_get(item, 0) as u64), rem)),
            Err(e) => Err(e),
        }
    } else if c == 0xcd {
        match take_field(rest, 2) {
            Ok((item, rem)) => Ok((Value::Unsigned(read_be_u16(item) as u64), rem)),
            Err(e) => Err(e),
        }
    } else if c == 0xce {
        match take_field(rest, 4) {
            Ok((item, rem)) => Ok((Value::Unsigned(read_be_u32(item) as u64), rem)),
            Err(e) => Err(e),
        }
    } else if c == 0xcf {
        match take_field(rest, 8) {
            Ok((item, rem)) => Ok((Value::Unsigned(read_be_u64(item)), rem)),
            Err(e) => Err(e),
        }
    } else if c == 0xd0 {
        match take_field(rest, 1) {
            Ok((item, rem)) => Ok((Value::Signed(extend_i8(*slice_index_get(item, 0))), rem)),
            Err(e) => Err(e),
        }
    } else if c == 0xd1 {
        match take_field(rest, 2) {
            Ok((item, rem)) => Ok((Value::Signed(extend_i16(read_be_u16(item))), rem)),
            Err(e) => Err(e),
        }
    } else if c == 0xd2 {
        match take_field(rest, 4) {
            Ok((item, rem)) => Ok((Value::Signed(extend_i32(read_be_u32(item))), rem)),
            Err(e) => Err(e),
        }
    } else if c == 0xd3 {
        match take_field(rest, 8) {
            Ok((item, rem)) => Ok((Value::Signed(reinterpret_i64(read_be_u64(item))), rem)),
            Err(e) => Err(e),
        }
    } else if c == 0xca {
        match take_field(rest, 4) {
            Ok((item, rem)) => Ok((Value::Float(read_be_u32(item)), rem)),
            Err(e) => Err(e),
        }
    } else if c == 0xcb {
        match take_field(rest, 8) {
            Ok((item, rem)) => Ok((Value::Double(read_be_u64(item)), rem)),
            Err(e) => Err(e),
        }
    } else if 0xa0 <= c && c <= 0xbf {
        let n: usize = (c - 0xa0) as usize;
        match take_field(rest, n) {
            Ok((item, rem)) => Ok((Value::String(item), rem)),
            Err(e) => Err(e),
        }
    } else if c == 0xd9 {
        match take_field(rest, 1) {
            Ok((lenb, mid)) => {
                let n: usize = *slice_index_get(lenb, 0) as usize;
                match take_field(mid, n) {
                    Ok((item, rem)) => Ok((Value::String(item), rem)),
                    Err(e) => Err(e),
                }
            },
            Err(e) => Err(e),
        }
    } else if c == 0xda {
        match take_field(rest, 2) {
            Ok((lenb, mid)) => {
                let n: usize = read_be_u16(lenb) as usize;
                match take_field(mid, n) {
                    Ok((item, rem)) => Ok((Value::String(item), rem)),
                    Err(e) => Err(e),
                }
            },
            Err(e) => Err(e),
        }
    } else if c == 0xdb {
        match take_field(rest, 4) {
            Ok((lenb, mid)) => {
                let n: usize = read_be_u32(lenb) as usize;
                match take_field(mid, n) {
                    Ok((item, rem)) => Ok((Value::String(item), rem)),
                    Err(e) => Err(e),
                }
            },
            Err(e) => Err(e),
        }
    } else if c == 0xc4 {
        match take_field(rest, 1) {
            Ok((lenb, mid)) => {
                let n: usize = *slice_index_get(lenb, 0) as usize;
                match take_field(mid, n) {
                    Ok((item, rem)) => Ok((Value::Binary(item), rem)),
                    Err(e) => Err(e),
                }
            },
            Err(e) => Err(e),
        }
    } else if c == 0xc5 {
        match take_field(rest, 2) {
            Ok((lenb, mid)) => {
                let n: usize = read_be_u16(lenb) as usize;
                match take_field(mid, n) {
                    Ok((item, rem)) => Ok((Value::Binary(item), rem)),
                    Err(e) => Err(e),
                }
            },
            Err(e) => Err(e),
        }
    } else if c == 0xc6 {
        match take_field(rest, 4) {
            Ok((lenb, mid)) => {
                let n: usize = read_be_u32(lenb) as usize;
                match take_field(mid, n) {
                    Ok((item, rem)) => Ok((Value::Binary(item), rem)),
                    Err(e) => Err(e),
                }
            },
            Err(e) => Err(e),
        }
    } else if 0x90 <= c && c <= 0x9f {
        Ok((Value::Array((c - 0x90) as usize), rest))
    } else if c == 0xdc {
        match take_field(rest, 2) {
            Ok((item, rem)) => Ok((Value::Array(read_be_u16(item) as usize), rem)),
            Err(e) => Err(e),
        }
    } else if c == 0xdd {
        match take_field(rest, 4) {
            Ok((item, rem)) => Ok((Value::Array(read_be_u32(item) as usize), rem)),
            Err(e) => Err(e),
        }
    } else if 0x80 <= c && c <= 0x8f {
        Ok((Value::Mapping((c - 0x80) as usize), rest))
    } else if c == 0xde {
        match take_field(rest, 2) {
            Ok((item, rem)) => Ok((Value::Mapping(read_be_u16(item) as usize), rem)),
            Err(e) => Err(e),
        }
    } else if c == 0xdf {
        match take_field(rest, 4) {
            Ok((item, rem)) => Ok((Value::Mapping(read_be_u32(item) as usize), rem)),
            Err(e) => Err(e),
        }
    } else {
        Err(Error::Invalid("Invalid"))
    }
}

} // verus!
