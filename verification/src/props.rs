//! Decoder-wide laws, stated over the decoder's spec functions and proved
//! once for every input.

use crate::bytes::{be16, be32, be64};
use crate::encode::spec_encode_unsigned;
use crate::slice_reader::{decode_matches, spec_parse, Error, SpecError, Value, ValueModel};
use vstd::prelude::*;

verus! {

/// Law: a tag byte at or below 0x7f decodes to exactly that unsigned value,
/// consuming only the tag byte.
pub proof fn lemma_positive_fixint(data: Seq<u8>)
    requires
        1 <= data.len(),
        data[0] <= 0x7f,
    ensures
        spec_parse(data) == Ok::<(ValueModel, Seq<u8>), SpecError>(
            (ValueModel::Unsigned(data[0] as u64), data.skip(1)),
        ),
{
}

/// Law: a tag byte at or above 0xe0 decodes to the negative value it holds
/// in two's complement, widened to 64 bits, consuming only the tag byte.
pub proof fn lemma_negative_fixint(data: Seq<u8>)
    requires
        1 <= data.len(),
        0xe0 <= data[0],
    ensures
        spec_parse(data) == Ok::<(ValueModel, Seq<u8>), SpecError>(
            (ValueModel::Signed((data[0] - 0x100) as i64), data.skip(1)),
        ),
{
}

/// Law: encoding any unsigned 64-bit integer at its canonical minimal
/// width and decoding the result yields the identical value and leaves
/// nothing unconsumed.
pub proof fn lemma_unsigned_round_trip(v: u64)
    ensures
        spec_parse(spec_encode_unsigned(v)) == Ok::<(ValueModel, Seq<u8>), SpecError>(
            (ValueModel::Unsigned(v), Seq::<u8>::empty()),
        ),
{
    let data = spec_encode_unsigned(v);
    if v <= 0x7f {
        assert(data.skip(1) =~= Seq::<u8>::empty());
    } else if v <= 0xff {
        let rest = data.skip(1);
        assert(rest =~= seq![v as u8]);
        assert(rest.take(1) =~= seq![v as u8]);
        assert(rest.skip(1) =~= Seq::<u8>::empty());
    } else if v <= 0xffff {
        let rest = data.skip(1);
        assert(rest =~= seq![((v / 0x100) % 0x100) as u8, (v % 0x100) as u8]);
        assert(rest.take(2) =~= rest);
        assert(rest.skip(2) =~= Seq::<u8>::empty());
        assert(((v / 0x100) % 0x100) * 0x100 + (v % 0x100) == v) by (bit_vector)
            requires
                v <= 0xffff,
        ;
        assert(be16(rest) == v);
    } else if v <= 0xffff_ffff {
        let rest = data.skip(1);
        assert(rest =~= seq![
            ((v / 0x100_0000) % 0x100) as u8,
            ((v / 0x1_0000) % 0x100) as u8,
            ((v / 0x100) % 0x100) as u8,
            (v % 0x100) as u8,
        ]);
        assert(rest.take(4) =~= rest);
        assert(rest.skip(4) =~= Seq::<u8>::empty());
        assert(((v / 0x100_0000) % 0x100) * 0x100_0000 + ((v / 0x1_0000) % 0x100) * 0x1_0000 + ((v
            / 0x100) % 0x100) * 0x100 + (v % 0x100) == v) by (bit_vector)
            requires
                v <= 0xffff_ffff,
        ;
        assert(be32(rest) == v);
    } else {
        let rest = data.skip(1);
        assert(rest =~= seq![
            ((v / 0x100_0000_0000_0000) % 0x100) as u8,
            ((v / 0x1_0000_0000_0000) % 0x100) as u8,
            ((v / 0x100_0000_0000) % 0x100) as u8,
            ((v / 0x1_0000_0000) % 0x100) as u8,
            ((v / 0x100_0000) % 0x100) as u8,
            ((v / 0x1_0000) % 0x100) as u8,
            ((v / 0x100) % 0x100) as u8,
            (v % 0x100) as u8,
        ]);
        assert(rest.take(8) =~= rest);
        assert(rest.skip(8) =~= Seq::<u8>::empty());
        assert(((v / 0x100_0000_0000_0000) % 0x100) * 0x100_0000_0000_0000 + ((v
            / 0x1_0000_0000_0000) % 0x100) * 0x1_0000_0000_0000 + ((v / 0x100_0000_0000) % 0x100)
            * 0x100_0000_0000 + ((v / 0x1_0000_0000) % 0x100) * 0x1_0000_0000 + ((v / 0x100_0000)
            % 0x100) * 0x100_0000 + ((v / 0x1_0000) % 0x100) * 0x1_0000 + ((v / 0x100) % 0x100)
            * 0x100 + (v % 0x100) == v) by (bit_vector);
        assert(be64(rest) == v);
    }
}

/// Law: the decode contract determines the outcome — two results that both
/// satisfy it on the same input agree up to their views. In particular a
/// second call on the same truncated input fails with the same
/// classification and the same hint as the first.
pub proof fn lemma_decode_deterministic<'a>(
    data: Seq<u8>,
    r1: Result<(Value<'a>, &'a [u8]), Error>,
    r2: Result<(Value<'a>, &'a [u8]), Error>,
)
    requires
        decode_matches(data, r1),
        decode_matches(data, r2),
    ensures
        (match (r1, r2) {
            (Ok((v1, rem1)), Ok((v2, rem2))) => v1@ == v2@ && rem1@ == rem2@,
            (Err(e1), Err(e2)) => e1@ == e2@,
            _ => false,
        }),
{
}

/// Law: an invalid classification is permanent — appending further bytes
/// to the input changes neither the outcome nor its reason.
pub proof fn lemma_invalid_is_permanent(data: Seq<u8>, more: Seq<u8>)
    requires
        spec_parse(data) matches Err(SpecError::Invalid(_)),
    ensures
        spec_parse(data + more) == spec_parse(data),
{
    assert((data + more).len() > 0);
    assert((data + more)[0] == data[0]);
}

/// Law: on success the remainder is exactly the input with the consumed
/// prefix removed: a suffix of the input, never longer than it.
pub proof fn lemma_success_consumes_prefix(data: Seq<u8>)
    ensures
        (match spec_parse(data) {
            Ok((v, rem)) => rem.len() <= data.len() && rem == data.skip(
                data.len() - rem.len(),
            ),
            Err(e) => true,
        }),
{
    assert forall|a: int, b: int|
        0 <= a && 0 <= b && a + b <= data.len() implies #[trigger] data.skip(a).skip(b)
        == data.skip(a + b) by {
        assert(data.skip(a).skip(b) =~= data.skip(a + b));
    }
}

} // verus!
