use sqlite_viz::error::SqliteVizError;
use sqlite_viz::parser::varint::{encode_varint, parse_signed_varint, parse_varint};

#[test]
fn test_single_byte_varint() {
    // Values 0-127 are single byte
    assert_eq!(parse_varint(&[0x00]).unwrap(), (0, 1));
    assert_eq!(parse_varint(&[0x01]).unwrap(), (1, 1));
    assert_eq!(parse_varint(&[0x7F]).unwrap(), (127, 1));
}

#[test]
fn test_two_byte_varint() {
    // 128 = 0x81 0x00 (continuation bit set on first byte)
    assert_eq!(parse_varint(&[0x81, 0x00]).unwrap(), (128, 2));
    // 300 = 0x82 0x2C
    assert_eq!(parse_varint(&[0x82, 0x2C]).unwrap(), (300, 2));
}

#[test]
fn test_empty_input() {
    assert!(parse_varint(&[]).is_err());
}

#[test]
fn test_empty_input_error_kind() {
    assert!(matches!(parse_varint(&[]), Err(SqliteVizError::InvalidVarint)));
}

#[test]
fn test_encode_exact_bytes() {
    assert_eq!(encode_varint(0), vec![0x00]);
    assert_eq!(encode_varint(127), vec![0x7F]);
    assert_eq!(encode_varint(128), vec![0x81, 0x00]);
    assert_eq!(encode_varint(300), vec![0x82, 0x2C]);
}

#[test]
fn test_round_trip_minimal_lengths() {
    let cases: [(u64, usize); 8] = [
        (0, 1),
        (127, 1),
        (128, 2),
        (300, 2),
        ((1u64 << 21) - 1, 3),
        (1u64 << 21, 4),
        ((1u64 << 63) - 1, 9),
        (u64::MAX, 9),
    ];
    for (value, expected_len) in cases {
        let encoded = encode_varint(value);
        assert_eq!(encoded.len(), expected_len, "length for {}", value);
        let (decoded, consumed) = parse_varint(&encoded).unwrap();
        assert_eq!(decoded, value);
        assert_eq!(consumed, expected_len);
    }
}

#[test]
fn test_nine_byte_varint_consumes_nine() {
    // All continuation bits set in the first eight bytes: the ninth
    // byte ends the varint no matter its own bit pattern.
    for last in [0x00u8, 0x7f, 0x80, 0xff] {
        let bytes = [0xffu8, 0xff, 0xff, 0xff, 0xff, 0xff, 0xff, 0xff, last];
        let (_, consumed) = parse_varint(&bytes).unwrap();
        assert_eq!(consumed, 9);
    }
}

#[test]
fn test_truncated_varint_consumes_what_is_there() {
    // A buffer that ends inside a varint is not an error.
    let (value, consumed) = parse_varint(&[0xff, 0xff]).unwrap();
    assert_eq!(consumed, 2);
    assert_eq!(value, (0x7f << 7) | 0x7f);
}

#[test]
fn test_signed_varint_negative() {
    // Nine bytes of 0xff with last byte 0xff is u64::MAX, i.e. -1.
    let bytes = [0xffu8; 9];
    let (value, consumed) = parse_signed_varint(&bytes).unwrap();
    assert_eq!(value, -1);
    assert_eq!(consumed, 9);
}
