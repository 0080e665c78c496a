use sqlite_viz::error::SqliteVizError;
use sqlite_viz::model::cell::Cell;
use sqlite_viz::model::page::PageType;
use sqlite_viz::parser::cell::{calculate_local_payload_size, max_local_payload,
    min_local_payload, parse_cell};

#[test]
fn test_local_payload_thresholds_4096() {
    // For a usable size of 4096 on a table-leaf page the maximum
    // local payload is 4096 - 35 = 4061.
    assert_eq!(max_local_payload(4096, true), 4061);
    assert_eq!(min_local_payload(4096, true), (4096 - 12) * 32 / 255 - 23);
    assert_eq!(calculate_local_payload_size(4061, 4096, true), 4061);
    // One byte more and the payload overflows: the local size drops
    // to the computed threshold, never above the maximum.
    let local = calculate_local_payload_size(4062, 4096, true);
    assert!(local < 4062);
    let min_local = min_local_payload(4096, true);
    let k = min_local + (4062 - min_local) % (4096 - 4);
    assert_eq!(local, if k <= 4061 { k } else { min_local });
}

#[test]
fn test_table_leaf_cell_fully_local_at_threshold() {
    // payload_size 4061 == maxLocal for U = 4096: fully local, no
    // overflow page pointer.
    let mut data = vec![0x9F, 0x5D]; // varint 4061
    data.push(0x01); // rowid 1
    data.extend(std::iter::repeat(0u8).take(4061));
    let cell = parse_cell(&data, 0, PageType::LeafTable, 4096).unwrap();
    match cell {
        Cell::TableLeaf(c) => {
            assert_eq!(c.payload_size, 4061);
            assert_eq!(c.local_payload_size, 4061);
            assert_eq!(c.rowid, 1);
            assert!(c.overflow_page.is_none());
            assert_eq!(c.cell_size, 2 + 1 + 4061);
        },
        other => panic!("expected table leaf, got {:?}", other),
    }
}

#[test]
fn test_table_leaf_cell_overflows_past_threshold() {
    // payload_size 4062 > maxLocal: only the local share is kept and
    // a 4-byte overflow page number follows it.
    let min_local = min_local_payload(4096, true);
    let k = min_local + (4062 - min_local) % (4096 - 4);
    let local = if k <= 4061 { k } else { min_local };
    let mut data = vec![0x9F, 0x5E]; // varint 4062
    data.push(0x01); // rowid 1
    data.extend(std::iter::repeat(0u8).take(local));
    data.extend_from_slice(&[0x00, 0x00, 0x00, 0x07]); // overflow page 7
    let cell = parse_cell(&data, 0, PageType::LeafTable, 4096).unwrap();
    match cell {
        Cell::TableLeaf(c) => {
            assert_eq!(c.payload_size, 4062);
            assert_eq!(c.local_payload_size, local);
            assert_eq!(c.overflow_page, Some(7));
            assert!((c.local_payload_size as u64) <= c.payload_size);
        },
        other => panic!("expected table leaf, got {:?}", other),
    }
}

#[test]
fn test_table_interior_cell() {
    let data = [0x00, 0x00, 0x00, 0x09, 0x2A]; // left child 9, rowid 42
    let cell = parse_cell(&data, 0, PageType::InteriorTable, 4096).unwrap();
    match &cell {
        Cell::TableInterior(c) => {
            assert_eq!(c.left_child_page, 9);
            assert_eq!(c.rowid, 42);
            assert_eq!(c.cell_size, 5);
        },
        other => panic!("expected table interior, got {:?}", other),
    }
    assert_eq!(cell.left_child(), Some(9));
    assert_eq!(cell.rowid(), Some(42));
    assert_eq!(cell.payload_size(), None);
    assert_eq!(cell.overflow_page(), None);
}

#[test]
fn test_index_leaf_cell() {
    // payload_size 2, payload bytes [0x02, 0x00]: a one-column null
    // record.
    let data = [0x02, 0x02, 0x00];
    let cell = parse_cell(&data, 0, PageType::LeafIndex, 4096).unwrap();
    match cell {
        Cell::IndexLeaf(c) => {
            assert_eq!(c.payload_size, 2);
            assert_eq!(c.local_payload_size, 2);
            assert!(c.overflow_page.is_none());
            assert!(c.payload.is_some());
        },
        other => panic!("expected index leaf, got {:?}", other),
    }
}

#[test]
fn test_index_interior_cell() {
    let data = [0x00, 0x00, 0x00, 0x05, 0x02, 0x02, 0x00];
    let cell = parse_cell(&data, 0, PageType::InteriorIndex, 4096).unwrap();
    match cell {
        Cell::IndexInterior(c) => {
            assert_eq!(c.left_child_page, 5);
            assert_eq!(c.payload_size, 2);
        },
        other => panic!("expected index interior, got {:?}", other),
    }
}

#[test]
fn test_cell_on_non_btree_page_type_rejected() {
    let data = [0u8; 16];
    assert!(matches!(
        parse_cell(&data, 0, PageType::Overflow, 4096),
        Err(SqliteVizError::InvalidPageType(0))
    ));
}

#[test]
fn test_cell_error_variants() {
    // An interior cell needs at least its 4-byte left child.
    let short = [0u8; 3];
    assert!(matches!(
        parse_cell(&short, 0, PageType::InteriorTable, 4096),
        Err(SqliteVizError::UnexpectedEof { .. })
    ));
    assert!(matches!(
        parse_cell(&short, 0, PageType::InteriorIndex, 4096),
        Err(SqliteVizError::UnexpectedEof { .. })
    ));
    // A leaf cell with nothing at its offset has no payload varint;
    // an interior cell of exactly 4 bytes has no varint after the
    // child pointer.
    let empty = [0u8; 4];
    assert!(matches!(
        parse_cell(&empty, 4, PageType::LeafTable, 4096),
        Err(SqliteVizError::InvalidVarint)
    ));
    assert!(matches!(
        parse_cell(&empty, 4, PageType::LeafIndex, 4096),
        Err(SqliteVizError::InvalidVarint)
    ));
    assert!(matches!(
        parse_cell(&empty, 0, PageType::InteriorTable, 4096),
        Err(SqliteVizError::InvalidVarint)
    ));
}
