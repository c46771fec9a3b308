use msgpack_reader::encode::encode_unsigned;
use msgpack_reader::slice_reader::{parse_next, Error, Value};

#[test]
fn unsigned_round_trip_boundaries() {
    let boundaries: [u64; 8] = [
        0,
        127,
        128,
        65535,
        65536,
        u32::MAX as u64,
        (u32::MAX as u64) + 1,
        u64::MAX,
    ];
    for v in boundaries {
        let bytes = encode_unsigned(v);
        match parse_next(&bytes) {
            Ok((Value::Unsigned(got), rest)) => {
                assert_eq!(got, v);
                assert!(rest.is_empty());
            }
            other => panic!("value {}: expected Unsigned, got {:?}", v, other),
        }
    }
}

#[test]
fn unsigned_encoding_is_minimal_width() {
    assert_eq!(encode_unsigned(0), vec![0x00]);
    assert_eq!(encode_unsigned(127), vec![0x7f]);
    assert_eq!(encode_unsigned(128), vec![0xcc, 0x80]);
    assert_eq!(encode_unsigned(255), vec![0xcc, 0xff]);
    assert_eq!(encode_unsigned(256), vec![0xcd, 0x01, 0x00]);
    assert_eq!(encode_unsigned(65535), vec![0xcd, 0xff, 0xff]);
    assert_eq!(encode_unsigned(65536), vec![0xce, 0x00, 0x01, 0x00, 0x00]);
    assert_eq!(
        encode_unsigned(u32::MAX as u64),
        vec![0xce, 0xff, 0xff, 0xff, 0xff]
    );
    assert_eq!(
        encode_unsigned((u32::MAX as u64) + 1),
        vec![0xcf, 0x00, 0x00, 0x00, 0x01, 0x00, 0x00, 0x00, 0x00]
    );
    assert_eq!(
        encode_unsigned(u64::MAX),
        vec![0xcf, 0xff, 0xff, 0xff, 0xff, 0xff, 0xff, 0xff, 0xff]
    );
}

#[test]
fn failure_is_idempotent_on_truncated_input() {
    let truncated = [0xd9, 0x05, b'a', b'b'];
    let first = parse_next(&truncated);
    let second = parse_next(&truncated);
    match (first, second) {
        (Err(Error::NeedMoreData(h1)), Err(Error::NeedMoreData(h2))) => {
            assert_eq!(h1, Some(3));
            assert_eq!(h2, Some(3));
        }
        other => panic!("expected matching NeedMoreData, got {:?}", other),
    }
}

#[test]
fn failure_is_idempotent_on_invalid_and_empty_input() {
    match (parse_next(&[0xc1]), parse_next(&[0xc1])) {
        (Err(Error::Invalid(r1)), Err(Error::Invalid(r2))) => assert_eq!(r1, r2),
        other => panic!("expected matching Invalid, got {:?}", other),
    }
    assert!(matches!(parse_next(&[]), Err(Error::Eos)));
    assert!(matches!(parse_next(&[]), Err(Error::Eos)));
}
