use sqlite_viz::error::SqliteVizError;
use sqlite_viz::model::page::PageType;
use sqlite_viz::parser::overflow::parse_overflow_header;
use sqlite_viz::parser::page::{parse_btree_header, parse_overflow_page, parse_page};
use sqlite_viz::Database;
use sqlite_viz::PageStore;

const PAGE_SIZE: usize = 512;

#[test]
fn test_page_type_properties() {
    assert_eq!(PageType::from_byte(0x02), Some(PageType::InteriorIndex));
    assert_eq!(PageType::from_byte(0x05), Some(PageType::InteriorTable));
    assert_eq!(PageType::from_byte(0x0a), Some(PageType::LeafIndex));
    assert_eq!(PageType::from_byte(0x0d), Some(PageType::LeafTable));
    assert_eq!(PageType::from_byte(0x00), None);
    assert_eq!(PageType::from_byte(0x07), None);

    assert!(PageType::InteriorTable.is_interior());
    assert!(PageType::InteriorTable.is_table());
    assert!(!PageType::InteriorTable.is_leaf());
    assert!(PageType::LeafIndex.is_leaf());
    assert!(PageType::LeafIndex.is_index());
    assert_eq!(PageType::InteriorIndex.header_size(), 12);
    assert_eq!(PageType::LeafTable.header_size(), 8);
}

#[test]
fn test_btree_header_fields() {
    let mut data = [0u8; 12];
    data[0] = 0x0D;
    data[1..3].copy_from_slice(&10u16.to_be_bytes()); // first freeblock
    data[3..5].copy_from_slice(&2u16.to_be_bytes()); // cell count
    data[5..7].copy_from_slice(&400u16.to_be_bytes()); // content start
    data[7] = 3; // fragmented bytes
    let header = parse_btree_header(&data, PageType::LeafTable).unwrap();
    assert_eq!(header.first_freeblock, 10);
    assert_eq!(header.cell_count, 2);
    assert_eq!(header.cell_content_start, 400);
    assert_eq!(header.fragmented_free_bytes, 3);
    assert_eq!(header.right_most_pointer, None);

    data[8..12].copy_from_slice(&9u32.to_be_bytes());
    let interior = parse_btree_header(&data, PageType::InteriorTable).unwrap();
    assert_eq!(interior.right_most_pointer, Some(9));
    assert!(parse_btree_header(&data[..10], PageType::InteriorTable).is_err());
    assert!(parse_btree_header(&data[..5], PageType::LeafTable).is_err());
}

#[test]
fn test_parse_page_zero_type_is_opaque() {
    let data = vec![0u8; PAGE_SIZE];
    let page = parse_page(&data, 3, PAGE_SIZE as u32, PAGE_SIZE as u32).unwrap();
    assert_eq!(page.page_type, PageType::Overflow);
    assert!(page.header.is_none());
    assert!(page.cells.is_empty());
    assert_eq!(page.free_space, PAGE_SIZE);
}

#[test]
fn test_parse_page_unknown_type_rejected() {
    let mut data = vec![0u8; PAGE_SIZE];
    data[0] = 0x07;
    assert!(matches!(
        parse_page(&data, 3, PAGE_SIZE as u32, PAGE_SIZE as u32),
        Err(SqliteVizError::InvalidPageType(0x07))
    ));
}

#[test]
fn test_parse_page_free_space() {
    let mut data = vec![0u8; PAGE_SIZE];
    data[0] = 0x0D;
    data[5..7].copy_from_slice(&500u16.to_be_bytes()); // content start
    data[7] = 4; // fragmented bytes
    let page = parse_page(&data, 3, PAGE_SIZE as u32, PAGE_SIZE as u32).unwrap();
    // gap: 500 - (8 + 0 cell pointers) = 492, plus 4 fragmented
    assert_eq!(page.free_space, 496);
}

#[test]
fn test_parse_page_skips_corrupt_cell() {
    // Two cell pointers, the second pointing past the page: the good
    // cell survives, the bad one is dropped, the page still parses.
    let mut data = vec![0u8; PAGE_SIZE];
    data[0] = 0x05;
    data[3..5].copy_from_slice(&2u16.to_be_bytes());
    data[5..7].copy_from_slice(&500u16.to_be_bytes());
    data[8..12].copy_from_slice(&9u32.to_be_bytes()); // right-most
    data[12..14].copy_from_slice(&500u16.to_be_bytes()); // good cell
    data[14..16].copy_from_slice(&600u16.to_be_bytes()); // past the page
    data[500..504].copy_from_slice(&7u32.to_be_bytes());
    data[504] = 0x05; // rowid
    let page = parse_page(&data, 3, PAGE_SIZE as u32, PAGE_SIZE as u32).unwrap();
    assert_eq!(page.cell_pointers.len(), 2);
    assert_eq!(page.cells.len(), 1);
}

#[test]
fn test_parse_page_too_short() {
    assert!(matches!(
        parse_page(&[0x0D, 0, 0], 3, PAGE_SIZE as u32, PAGE_SIZE as u32),
        Err(SqliteVizError::UnexpectedEof { .. })
    ));
}

#[test]
fn test_overflow_page_header() {
    let mut data = vec![0u8; 32];
    data[0..4].copy_from_slice(&6u32.to_be_bytes());
    let (next, content) = parse_overflow_header(&data).unwrap();
    assert_eq!(next, Some(6));
    assert_eq!(content, 28);

    let (next, content) = parse_overflow_page(&data, 5, 32).unwrap();
    assert_eq!(next, Some(6));
    assert_eq!(content, 28);

    let zero = vec![0u8; 32];
    let (next, _) = parse_overflow_header(&zero).unwrap();
    assert_eq!(next, None);
    assert!(parse_overflow_header(&zero[..3]).is_err());
}

#[test]
fn test_page_store_bounds() {
    let store = PageStore { page_size: 16, page_count: 2, data: vec![0u8; 32] };
    assert!(store.read_page_raw(1).is_ok());
    assert!(store.read_page_raw(2).is_ok());
    assert!(matches!(
        store.read_page_raw(0),
        Err(SqliteVizError::PageOutOfBounds { page: 0, total: 2 })
    ));
    assert!(matches!(
        store.read_page_raw(3),
        Err(SqliteVizError::PageOutOfBounds { page: 3, total: 2 })
    ));
    // a count that claims more pages than the image holds
    let short = PageStore { page_size: 16, page_count: 4, data: vec![0u8; 32] };
    assert!(short.read_page_raw(3).is_err());
}

/// A minimal single-page database image: a valid 100-byte header
/// followed by an empty leaf-table catalog.
fn tiny_database_image() -> Vec<u8> {
    let mut data = vec![0u8; PAGE_SIZE];
    data[0..16].copy_from_slice(b"SQLite format 3\0");
    data[16..18].copy_from_slice(&(PAGE_SIZE as u16).to_be_bytes());
    data[28..32].copy_from_slice(&1u32.to_be_bytes()); // page count
    data[56..60].copy_from_slice(&1u32.to_be_bytes()); // UTF-8
    data[100] = 0x0D; // leaf table
    data[105..107].copy_from_slice(&(PAGE_SIZE as u16).to_be_bytes()); // content start
    data
}

#[test]
fn test_database_from_bytes() {
    let db = Database::from_bytes(tiny_database_image(), "tiny.db".to_string()).unwrap();
    assert_eq!(db.header.page_size, PAGE_SIZE as u32);
    assert_eq!(db.page_count(), 1);
    assert_eq!(db.usable_size(), PAGE_SIZE as u32);
    assert_eq!(db.file_name, "tiny.db");

    let page = db.parse_page(1).unwrap();
    assert_eq!(page.page_type, PageType::LeafTable);
    assert_eq!(page.page_number, 1);

    let schema = db.parse_schema().unwrap();
    assert!(schema.entries.is_empty());

    let tree = db.build_btree("sqlite_schema", 1, sqlite_viz::model::btree::BTreeType::Table)
        .unwrap();
    assert_eq!(tree.nodes.len(), 1);
    assert_eq!(tree.nodes[0].page_number, 1);
    assert_eq!(tree.depth, 0);
}

#[test]
fn test_database_rejects_bad_image() {
    assert!(matches!(
        Database::from_bytes(vec![0u8; 50], "x".to_string()),
        Err(SqliteVizError::UnexpectedEof { .. })
    ));
    assert!(matches!(
        Database::from_bytes(vec![0u8; 200], "x".to_string()),
        Err(SqliteVizError::InvalidMagic)
    ));
}

#[test]
fn test_database_page_count_from_image_length() {
    // With a zero declared page count, the count comes from the
    // image length.
    let mut data = tiny_database_image();
    data[28..32].copy_from_slice(&0u32.to_be_bytes());
    data.extend(vec![0u8; PAGE_SIZE]); // a second page
    let db = Database::from_bytes(data, "x".to_string()).unwrap();
    assert_eq!(db.page_count(), 2);
}
