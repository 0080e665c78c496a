use sqlite_viz::error::SqliteVizError;
use sqlite_viz::parser::wal::{is_wal_file, parse_wal_file, parse_wal_frame_header,
    parse_wal_header};

const SALT1: u32 = 0xAABBCCDD;
const SALT2: u32 = 0x11223344;
const WAL_PAGE_SIZE: u32 = 8;

fn wal_header_bytes(magic: u32) -> Vec<u8> {
    let mut h = Vec::new();
    h.extend_from_slice(&magic.to_be_bytes());
    h.extend_from_slice(&3007000u32.to_be_bytes()); // format version
    h.extend_from_slice(&WAL_PAGE_SIZE.to_be_bytes());
    h.extend_from_slice(&7u32.to_be_bytes()); // checkpoint sequence
    h.extend_from_slice(&SALT1.to_be_bytes());
    h.extend_from_slice(&SALT2.to_be_bytes());
    h.extend_from_slice(&0u32.to_be_bytes());
    h.extend_from_slice(&0u32.to_be_bytes());
    h
}

fn frame_bytes(page_number: u32, salt1: u32, salt2: u32) -> Vec<u8> {
    let mut f = Vec::new();
    f.extend_from_slice(&page_number.to_be_bytes());
    f.extend_from_slice(&0u32.to_be_bytes()); // not a commit frame
    f.extend_from_slice(&salt1.to_be_bytes());
    f.extend_from_slice(&salt2.to_be_bytes());
    f.extend_from_slice(&0u32.to_be_bytes());
    f.extend_from_slice(&0u32.to_be_bytes());
    f.extend(std::iter::repeat(0u8).take(WAL_PAGE_SIZE as usize)); // page image
    f
}

#[test]
fn test_is_wal_file() {
    assert!(is_wal_file(&[0x37, 0x7f, 0x06, 0x82]));
    assert!(is_wal_file(&[0x37, 0x7f, 0x06, 0x83]));
    assert!(!is_wal_file(&[0x37, 0x7f, 0x06, 0x84]));
    assert!(!is_wal_file(&[0x37, 0x7f]));
}

#[test]
fn test_wal_header_fields() {
    let data = wal_header_bytes(0x377f0682);
    let header = parse_wal_header(&data).unwrap();
    assert_eq!(header.magic, 0x377f0682);
    assert!(header.is_big_endian());
    assert_eq!(header.format_version, 3007000);
    assert_eq!(header.page_size, WAL_PAGE_SIZE);
    assert_eq!(header.checkpoint_sequence, 7);
    assert_eq!(header.salt1, SALT1);
    assert_eq!(header.salt2, SALT2);

    let little = parse_wal_header(&wal_header_bytes(0x377f0683)).unwrap();
    assert!(!little.is_big_endian());
}

#[test]
fn test_wal_header_errors() {
    assert!(matches!(
        parse_wal_header(&[0u8; 10]),
        Err(SqliteVizError::UnexpectedEof { .. })
    ));
    let bad = wal_header_bytes(0xDEADBEEF);
    assert!(matches!(
        parse_wal_header(&bad),
        Err(SqliteVizError::InvalidWalMagic(0xDEADBEEF))
    ));
}

#[test]
fn test_wal_frame_header() {
    let f = frame_bytes(3, SALT1, SALT2);
    let header = parse_wal_frame_header(&f).unwrap();
    assert_eq!(header.page_number, 3);
    assert_eq!(header.salt1, SALT1);
    assert_eq!(header.salt2, SALT2);
    assert!(!header.is_commit_frame());
    assert!(parse_wal_frame_header(&f[..20]).is_err());
}

#[test]
fn test_wal_salt_gate_yields_two_of_three() {
    // Three frames, the last one carrying a stale salt: exactly the
    // two frames before it are decoded, not three.
    let mut data = wal_header_bytes(0x377f0682);
    data.extend(frame_bytes(2, SALT1, SALT2));
    data.extend(frame_bytes(3, SALT1, SALT2));
    data.extend(frame_bytes(4, SALT2, SALT1));
    let wal = parse_wal_file(&data, "test.wal".to_string()).unwrap();
    assert_eq!(wal.frames.len(), 2);
    assert_eq!(wal.frames[0].frame_index, 0);
    assert_eq!(wal.frames[1].frame_index, 1);
    assert_eq!(wal.frames[0].header.page_number, 2);
    assert_eq!(wal.frames[1].header.page_number, 3);
}

#[test]
fn test_wal_salt_gate_stops_rather_than_skips() {
    // When a stale frame sits in the middle, decoding stops there:
    // the valid frame after it is not taken either.
    let mut data = wal_header_bytes(0x377f0682);
    data.extend(frame_bytes(2, SALT1, SALT2));
    data.extend(frame_bytes(3, SALT1 ^ 1, SALT2));
    data.extend(frame_bytes(4, SALT1, SALT2));
    let wal = parse_wal_file(&data, "test.wal".to_string()).unwrap();
    assert_eq!(wal.frames.len(), 1);
    assert_eq!(wal.frames[0].header.page_number, 2);
}

#[test]
fn test_wal_frame_pages_decoded() {
    // A zeroed page image parses as an opaque overflow/freelist page.
    let mut data = wal_header_bytes(0x377f0682);
    data.extend(frame_bytes(2, SALT1, SALT2));
    let wal = parse_wal_file(&data, "w".to_string()).unwrap();
    assert_eq!(wal.frames.len(), 1);
    let page = wal.frames[0].page.as_ref().unwrap();
    assert_eq!(page.page_number, 2);
    assert_eq!(wal.frames[0].raw_page_data.len(), WAL_PAGE_SIZE as usize);
    assert_eq!(wal.file_name, "w");
}

#[test]
fn test_wal_partial_trailing_frame_ignored() {
    let mut data = wal_header_bytes(0x377f0682);
    data.extend(frame_bytes(2, SALT1, SALT2));
    data.extend(std::iter::repeat(0u8).take(10)); // not a whole frame
    let wal = parse_wal_file(&data, "w".to_string()).unwrap();
    assert_eq!(wal.frames.len(), 1);
}
