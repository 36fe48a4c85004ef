use mqtt_codec::decode::decode_varint;
use mqtt_codec::encode::encode_varint;
use mqtt_codec::errors::{DecodingError, EncodingError};

#[test]
fn varint_boundary_lengths() {
    let cases: [(u32, usize); 8] = [
        (0, 1),
        (127, 1),
        (128, 2),
        (16383, 2),
        (16384, 3),
        (2097151, 3),
        (2097152, 4),
        (268435455, 4),
    ];
    for (value, len) in cases {
        let bytes = encode_varint(value).unwrap();
        assert_eq!(bytes.len(), len, "value {}", value);
        assert_eq!(decode_varint(&bytes), Ok((value, len)), "value {}", value);
    }
}

#[test]
fn varint_exact_bytes() {
    assert_eq!(encode_varint(0).unwrap(), vec![0x00]);
    assert_eq!(encode_varint(127).unwrap(), vec![0x7F]);
    assert_eq!(encode_varint(128).unwrap(), vec![0x80, 0x01]);
    assert_eq!(encode_varint(16384).unwrap(), vec![0x80, 0x80, 0x01]);
    assert_eq!(encode_varint(268435455).unwrap(), vec![0xFF, 0xFF, 0xFF, 0x7F]);
}

#[test]
fn varint_too_large_fails() {
    assert_eq!(encode_varint(268435456), Err(EncodingError::ValueTooLarge));
    assert_eq!(encode_varint(u32::MAX), Err(EncodingError::ValueTooLarge));
}

#[test]
fn varint_fifth_continuation_byte_fails() {
    let r = decode_varint(&[0x80, 0x80, 0x80, 0x80, 0x01]);
    assert_eq!(r, Err(DecodingError::MalformedVarint));
}

#[test]
fn varint_truncated_fails() {
    assert_eq!(decode_varint(&[]), Err(DecodingError::MalformedVarint));
    assert_eq!(decode_varint(&[0x80]), Err(DecodingError::MalformedVarint));
    assert_eq!(decode_varint(&[0x80, 0x80]), Err(DecodingError::MalformedVarint));
}

#[test]
fn varint_ignores_trailing_bytes() {
    assert_eq!(decode_varint(&[0x05, 0xAA, 0xBB]), Ok((5, 1)));
}
