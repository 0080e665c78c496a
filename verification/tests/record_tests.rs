use sqlite_viz::model::cell::{SerialType, Value};
use sqlite_viz::parser::record::parse_record;

#[test]
fn test_parse_simple_record() {
    // A simple record with header size 2, one NULL column
    let data = [0x02, 0x00]; // header_size=2, serial_type=0 (NULL)
    let record = parse_record(&data).unwrap();
    assert_eq!(record.header_size, 2);
    assert_eq!(record.column_types.len(), 1);
    assert!(matches!(record.column_types[0], SerialType::Null));
}

#[test]
fn test_parse_zero_size_types_at_end() {
    // Record with a blob followed by One (serial type 9)
    // This tests that zero-size types at the end of payload are parsed correctly
    // Header: 03 (size=3), 0e (Blob(1)), 09 (One)
    // Values: 0x42 (the blob byte)
    let data = [0x03, 0x0e, 0x09, 0x42];
    let record = parse_record(&data).unwrap();
    assert_eq!(record.header_size, 3);
    assert_eq!(record.column_types.len(), 2);
    assert!(matches!(record.column_types[0], SerialType::Blob(1)));
    assert!(matches!(record.column_types[1], SerialType::One));
    assert_eq!(record.values.len(), 2);
    assert!(matches!(&record.values[0], Value::Blob(b) if b == &[0x42]));
    assert!(matches!(record.values[1], Value::Integer(1)));
}

#[test]
fn test_parse_zero_at_end() {
    // Record ending with Zero (serial type 8)
    // Header: 03 (size=3), 0e (Blob(1)), 08 (Zero)
    // Values: 0x42 (the blob byte)
    let data = [0x03, 0x0e, 0x08, 0x42];
    let record = parse_record(&data).unwrap();
    assert_eq!(record.column_types.len(), 2);
    assert!(matches!(record.column_types[1], SerialType::Zero));
    assert!(matches!(record.values[1], Value::Integer(0)));
}

#[test]
fn test_parse_multiple_zero_size_types_at_end() {
    // Record with blob followed by Zero and One
    // Header: 04 (size=4), 0e (Blob(1)), 08 (Zero), 09 (One)
    // Values: 0x42 (the blob byte)
    let data = [0x04, 0x0e, 0x08, 0x09, 0x42];
    let record = parse_record(&data).unwrap();
    assert_eq!(record.column_types.len(), 3);
    assert!(matches!(record.column_types[1], SerialType::Zero));
    assert!(matches!(record.column_types[2], SerialType::One));
    assert!(matches!(record.values[1], Value::Integer(0)));
    assert!(matches!(record.values[2], Value::Integer(1)));
}

#[test]
fn test_parse_zero_size_only() {
    // Record with only zero-size types: NULL, Zero, One
    // Header: 04 (size=4), 00 (NULL), 08 (Zero), 09 (One)
    // No value bytes needed
    let data = [0x04, 0x00, 0x08, 0x09];
    let record = parse_record(&data).unwrap();
    assert_eq!(record.column_types.len(), 3);
    assert!(matches!(record.values[0], Value::Null));
    assert!(matches!(record.values[1], Value::Integer(0)));
    assert!(matches!(record.values[2], Value::Integer(1)));
}

#[test]
fn test_parse_zero_size_in_middle() {
    // Zero-size type in the middle, not at end
    // Header: 04 (size=4), 09 (One), 0e (Blob(1)), 01 (Int8)
    // Values: 0x42 (blob), 0x07 (int8 = 7)
    let data = [0x04, 0x09, 0x0e, 0x01, 0x42, 0x07];
    let record = parse_record(&data).unwrap();
    assert_eq!(record.column_types.len(), 3);
    assert!(matches!(record.values[0], Value::Integer(1)));
    assert!(matches!(&record.values[1], Value::Blob(b) if b == &[0x42]));
    assert!(matches!(record.values[2], Value::Integer(7)));
}

#[test]
fn test_parse_truncated_payload_returns_null() {
    // Payload is truncated - Int16 needs 2 bytes but only 1 available
    // Header: 03 (size=3), 0e (Blob(1)), 02 (Int16)
    // Values: 0x42 (blob), then truncated (missing second byte for Int16)
    let data = [0x03, 0x0e, 0x02, 0x42, 0x01];
    let record = parse_record(&data).unwrap();
    assert_eq!(record.column_types.len(), 2);
    assert!(matches!(&record.values[0], Value::Blob(b) if b == &[0x42]));
    // Int16 should be NULL because payload is truncated
    assert!(matches!(record.values[1], Value::Null));
}

#[test]
fn test_truncated_then_zero_width_stays_aligned() {
    // A truncated Int16 must still advance the offset by its declared
    // width, so a Zero after it stays positioned past the end of the
    // buffer and reads as NULL too.
    // Header: 03 (size=3), 02 (Int16), 08 (Zero); values: one byte only.
    let data = [0x03, 0x02, 0x08, 0x42];
    let record = parse_record(&data).unwrap();
    assert_eq!(record.column_types.len(), 2);
    assert!(matches!(record.values[0], Value::Null));
    assert!(matches!(record.values[1], Value::Null));
}

#[test]
fn test_signed_integer_widths() {
    // Int8 -1, Int16 -2, Int24 -3, Int32 -4, Int48 -5, Int64 -6
    let data = [
        0x07, 0x01, 0x02, 0x03, 0x04, 0x05, 0x06, // header
        0xff, // Int8: -1
        0xff, 0xfe, // Int16: -2
        0xff, 0xff, 0xfd, // Int24: -3
        0xff, 0xff, 0xff, 0xfc, // Int32: -4
        0xff, 0xff, 0xff, 0xff, 0xff, 0xfb, // Int48: -5
        0xff, 0xff, 0xff, 0xff, 0xff, 0xff, 0xff, 0xfa, // Int64: -6
    ];
    let record = parse_record(&data).unwrap();
    assert_eq!(record.values.len(), 6);
    for (i, expected) in [-1i64, -2, -3, -4, -5, -6].iter().enumerate() {
        assert!(matches!(record.values[i], Value::Integer(v) if v == *expected));
    }
}

#[test]
fn test_float_value_keeps_bit_pattern() {
    // Float64 (serial type 7): 1.5 in IEEE-754 big-endian.
    let bits = (1.5f64).to_be_bytes();
    let mut data = vec![0x02, 0x07];
    data.extend_from_slice(&bits);
    let record = parse_record(&data).unwrap();
    assert!(matches!(record.values[0], Value::Real(b) if f64::from_bits(b) == 1.5));
}

#[test]
fn test_text_value_ascii() {
    // Text of 2 characters: serial type 13 + 2*2 = 17 (0x11)
    let data = [0x02, 0x11, 0x68, 0x69];
    let record = parse_record(&data).unwrap();
    assert!(matches!(&record.values[0], Value::Text(s) if s == "hi"));
}

#[test]
fn test_text_value_invalid_utf8_is_replaced() {
    // An ill-formed byte must decode to the replacement character,
    // not fail and not pass through unchanged.
    let data = [0x02, 0x11, 0x68, 0xff];
    let record = parse_record(&data).unwrap();
    match &record.values[0] {
        Value::Text(s) => {
            assert_eq!(s, "h\u{FFFD}");
        },
        other => panic!("expected text, got {:?}", other),
    }
}

#[test]
fn test_serial_type_codes() {
    assert!(matches!(SerialType::from_raw(0), SerialType::Null));
    assert!(matches!(SerialType::from_raw(7), SerialType::Float64));
    assert!(matches!(SerialType::from_raw(10), SerialType::Reserved(10)));
    assert!(matches!(SerialType::from_raw(11), SerialType::Reserved(11)));
    assert!(matches!(SerialType::from_raw(12), SerialType::Blob(0)));
    assert!(matches!(SerialType::from_raw(13), SerialType::Text(0)));
    assert!(matches!(SerialType::from_raw(0x0e), SerialType::Blob(1)));
    assert!(matches!(SerialType::from_raw(19), SerialType::Text(3)));
    assert_eq!(SerialType::from_raw(6).size(), 8);
    assert_eq!(SerialType::from_raw(5).size(), 6);
    assert_eq!(SerialType::from_raw(8).size(), 0);
    assert_eq!(SerialType::from_raw(20).size(), 4);
}

#[test]
fn test_empty_record_is_error() {
    assert!(parse_record(&[]).is_err());
}
