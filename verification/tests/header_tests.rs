use sqlite_viz::dump::{detect_file_type, FileType};
use sqlite_viz::error::SqliteVizError;
use sqlite_viz::model::database::{DatabaseHeader, TextEncoding};
use sqlite_viz::parser::header::parse_database_header;

const MAGIC: &[u8; 16] = b"SQLite format 3\0";

/// A 100-byte header with the magic, a page size and a text encoding.
fn header_bytes(page_size_raw: u16, encoding: u32) -> [u8; 100] {
    let mut data = [0u8; 100];
    data[0..16].copy_from_slice(MAGIC);
    data[16..18].copy_from_slice(&page_size_raw.to_be_bytes());
    data[56..60].copy_from_slice(&encoding.to_be_bytes());
    data
}

#[test]
fn test_invalid_magic() {
    let data = [0u8; 100];
    assert!(matches!(parse_database_header(&data), Err(SqliteVizError::InvalidMagic)));
}

#[test]
fn test_too_short() {
    let data = [0u8; 50];
    assert!(matches!(parse_database_header(&data), Err(SqliteVizError::UnexpectedEof { .. })));
}

#[test]
fn test_any_corrupt_magic_rejected() {
    // Flipping any one byte of the magic must yield InvalidMagic.
    for i in 0..16 {
        let mut data = header_bytes(512, 1);
        data[i] ^= 0x01;
        assert!(matches!(parse_database_header(&data), Err(SqliteVizError::InvalidMagic)));
    }
}

#[test]
fn test_invalid_text_encoding() {
    let data = header_bytes(512, 5);
    assert!(matches!(
        parse_database_header(&data),
        Err(SqliteVizError::InvalidTextEncoding(5))
    ));
}

#[test]
fn test_header_fields() {
    let mut data = header_bytes(512, 2);
    data[18] = 1; // file_format_write
    data[19] = 2; // file_format_read
    data[20] = 32; // reserved bytes
    data[96..100].copy_from_slice(&3039000u32.to_be_bytes());
    let header = parse_database_header(&data).unwrap();
    assert_eq!(header.page_size, 512);
    assert_eq!(header.file_format_write, 1);
    assert_eq!(header.file_format_read, 2);
    assert_eq!(header.reserved_bytes_per_page, 32);
    assert_eq!(header.text_encoding, TextEncoding::Utf16Le);
    assert_eq!(header.sqlite_version, 3039000);
    assert_eq!(header.usable_size(), 480);
}

#[test]
fn test_page_size_sentinel() {
    // A raw page size of 1 means 65536.
    let data = header_bytes(1, 1);
    let header = parse_database_header(&data).unwrap();
    assert_eq!(header.page_size, 65536);
}

#[test]
fn test_sqlite_version_string() {
    let data = header_bytes(512, 1);
    let mut with_version = data;
    with_version[96..100].copy_from_slice(&3039000u32.to_be_bytes());
    let header = parse_database_header(&with_version).unwrap();
    assert_eq!(header.sqlite_version_string(), "3.39.0");
}

#[test]
fn test_text_encoding_from_u32() {
    assert_eq!(TextEncoding::from_u32(1), Some(TextEncoding::Utf8));
    assert_eq!(TextEncoding::from_u32(2), Some(TextEncoding::Utf16Le));
    assert_eq!(TextEncoding::from_u32(3), Some(TextEncoding::Utf16Be));
    assert_eq!(TextEncoding::from_u32(0), None);
    assert_eq!(TextEncoding::from_u32(4), None);
}

#[test]
fn test_detect_file_type() {
    let db = header_bytes(512, 1);
    assert!(matches!(detect_file_type(&db), FileType::SqliteDb));

    let wal = [0x37u8, 0x7f, 0x06, 0x82, 0, 0, 0, 0, 0, 0, 0, 0, 0, 0, 0, 0];
    assert!(matches!(detect_file_type(&wal), FileType::WalFile));

    let junk = [0u8; 32];
    assert!(matches!(detect_file_type(&junk), FileType::Unknown));

    assert!(matches!(detect_file_type(&[]), FileType::Unknown));
}

#[test]
fn test_header_struct_is_plain_data() {
    let data = header_bytes(512, 1);
    let header: DatabaseHeader = parse_database_header(&data).unwrap();
    let copy = header;
    assert_eq!(copy, header);
}
