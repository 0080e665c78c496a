use sqlite_viz::analyzer::schema::{collect_schema_entries, parse_schema, parse_schema_record};
use sqlite_viz::model::cell::{Record, SerialType, Value};
use sqlite_viz::model::page::PageType;
use sqlite_viz::model::schema::{ObjectType, Schema, SchemaEntry};
use sqlite_viz::parser::page::parse_page;
use sqlite_viz::PageStore;

const PAGE_SIZE: usize = 512;

fn record(values: Vec<Value>) -> Record {
    Record { header_size: 0, column_types: vec![SerialType::Null; values.len()], values }
}

fn catalog_values(object_type: &str, name: &str, table_name: &str, root_page: i64) -> Vec<Value> {
    vec![
        Value::Text(object_type.to_string()),
        Value::Text(name.to_string()),
        Value::Text(table_name.to_string()),
        Value::Integer(root_page),
        Value::Null,
    ]
}

#[test]
fn test_object_type_case_insensitive() {
    assert_eq!(ObjectType::from_str("table"), Some(ObjectType::Table));
    assert_eq!(ObjectType::from_str("TABLE"), Some(ObjectType::Table));
    assert_eq!(ObjectType::from_str("Index"), Some(ObjectType::Index));
    assert_eq!(ObjectType::from_str("view"), Some(ObjectType::View));
    assert_eq!(ObjectType::from_str("tRiGgEr"), Some(ObjectType::Trigger));
    assert_eq!(ObjectType::from_str("tables"), None);
    assert_eq!(ObjectType::from_str(""), None);
}

#[test]
fn test_schema_record_with_five_columns() {
    let rec = record(catalog_values("table", "users", "users", 3));
    let entry = parse_schema_record(&rec).unwrap();
    assert_eq!(entry.object_type, ObjectType::Table);
    assert_eq!(entry.name, "users");
    assert_eq!(entry.table_name, "users");
    assert_eq!(entry.root_page, 3);
    assert_eq!(entry.sql, None);
}

#[test]
fn test_schema_record_with_sql_text() {
    let mut values = catalog_values("index", "i1", "users", 4);
    values[4] = Value::Text("CREATE INDEX i1 ON users(name)".to_string());
    let entry = parse_schema_record(&record(values)).unwrap();
    assert_eq!(entry.object_type, ObjectType::Index);
    assert_eq!(entry.sql.as_deref(), Some("CREATE INDEX i1 ON users(name)"));
}

#[test]
fn test_schema_record_with_four_columns_dropped() {
    // A catalog record missing the sql column must be dropped, not
    // produce a partially populated entry.
    let mut values = catalog_values("table", "users", "users", 3);
    values.pop();
    assert!(parse_schema_record(&record(values)).is_none());
}

#[test]
fn test_schema_record_with_wrong_types_dropped() {
    let mut values = catalog_values("table", "users", "users", 3);
    values[1] = Value::Integer(9); // name must be text
    assert!(parse_schema_record(&record(values)).is_none());

    let mut values = catalog_values("nonsense", "users", "users", 3);
    values[0] = Value::Text("nonsense".to_string());
    assert!(parse_schema_record(&record(values)).is_none());

    let mut values = catalog_values("table", "users", "users", 3);
    values[3] = Value::Text("3".to_string()); // root page must be integer or null
    assert!(parse_schema_record(&record(values)).is_none());
}

#[test]
fn test_schema_record_null_root_page_is_zero() {
    let mut values = catalog_values("view", "v1", "v1", 0);
    values[3] = Value::Null;
    let entry = parse_schema_record(&record(values)).unwrap();
    assert_eq!(entry.object_type, ObjectType::View);
    assert_eq!(entry.root_page, 0);
}

fn entry(object_type: ObjectType, name: &str, table_name: &str, root_page: u32) -> SchemaEntry {
    SchemaEntry {
        object_type,
        name: name.to_string(),
        table_name: table_name.to_string(),
        root_page,
        sql: None,
    }
}

#[test]
fn test_schema_queries() {
    let schema = Schema {
        entries: vec![
            entry(ObjectType::Table, "users", "users", 2),
            entry(ObjectType::Index, "i_users", "users", 3),
            entry(ObjectType::Table, "posts", "posts", 4),
            entry(ObjectType::Index, "i_posts", "posts", 5),
            entry(ObjectType::View, "v", "v", 0),
        ],
    };
    let tables = schema.tables();
    assert_eq!(tables.len(), 2);
    assert_eq!(tables[0].name, "users");
    assert_eq!(tables[1].name, "posts");

    let indexes = schema.indexes();
    assert_eq!(indexes.len(), 2);

    assert_eq!(schema.get_table("posts").unwrap().root_page, 4);
    assert!(schema.get_table("nope").is_none());
    assert!(schema.get_table("i_users").is_none());
    assert_eq!(schema.get_index("i_users").unwrap().root_page, 3);

    let for_users = schema.indexes_for_table("users");
    assert_eq!(for_users.len(), 1);
    assert_eq!(for_users[0].name, "i_users");
}

/// One whole catalog record for a table entry with a one-character
/// name: five columns, no sql.
fn catalog_record_bytes(name: u8, root_page: u8) -> Vec<u8> {
    // header: size 6, then text(5), text(1), text(1), int8, null
    let mut payload = vec![0x06, 0x17, 0x0F, 0x0F, 0x01, 0x00];
    payload.extend_from_slice(b"table");
    payload.push(name);
    payload.push(name);
    payload.push(root_page);
    payload
}

/// A 512-byte leaf-table catalog page holding one record.
fn catalog_leaf_page(name: u8, root_page: u8) -> Vec<u8> {
    let mut page = vec![0u8; PAGE_SIZE];
    let payload = catalog_record_bytes(name, root_page);
    let cell_len = 2 + payload.len(); // payload-size varint + rowid + payload
    let cell_off = PAGE_SIZE - cell_len;
    page[0] = 0x0D;
    page[3..5].copy_from_slice(&1u16.to_be_bytes());
    page[5..7].copy_from_slice(&(cell_off as u16).to_be_bytes());
    page[8..10].copy_from_slice(&(cell_off as u16).to_be_bytes());
    page[cell_off] = payload.len() as u8;
    page[cell_off + 1] = 0x01; // rowid
    page[cell_off + 2..cell_off + 2 + payload.len()].copy_from_slice(&payload);
    page
}

#[test]
fn test_parse_schema_single_leaf_page() {
    let page_bytes = catalog_leaf_page(b't', 5);
    let page = parse_page(&page_bytes, 2, PAGE_SIZE as u32, PAGE_SIZE as u32).unwrap();
    assert_eq!(page.page_type, PageType::LeafTable);
    let schema = parse_schema(&page).unwrap();
    assert_eq!(schema.entries.len(), 1);
    assert_eq!(schema.entries[0].object_type, ObjectType::Table);
    assert_eq!(schema.entries[0].name, "t");
    assert_eq!(schema.entries[0].root_page, 5);
}

#[test]
fn test_parse_schema_rejects_non_table_page() {
    let mut page_bytes = vec![0u8; PAGE_SIZE];
    page_bytes[0] = 0x0A; // leaf index
    page_bytes[5..7].copy_from_slice(&512u16.to_be_bytes());
    let page = parse_page(&page_bytes, 2, PAGE_SIZE as u32, PAGE_SIZE as u32).unwrap();
    assert!(parse_schema(&page).is_err());
}

#[test]
fn test_collect_schema_entries_multi_page() {
    // Root interior catalog page at 2 with one cell pointing at leaf
    // 3 and its right-most pointer at leaf 4: the entries come back
    // left to right.
    let mut data = vec![0u8; PAGE_SIZE * 4];
    let mut root = vec![0u8; PAGE_SIZE];
    root[0] = 0x05;
    root[3..5].copy_from_slice(&1u16.to_be_bytes());
    root[5..7].copy_from_slice(&500u16.to_be_bytes());
    root[8..12].copy_from_slice(&4u32.to_be_bytes()); // right-most: 4
    root[12..14].copy_from_slice(&500u16.to_be_bytes());
    root[500..504].copy_from_slice(&3u32.to_be_bytes()); // left child: 3
    root[504] = 0x01; // rowid
    data[PAGE_SIZE..2 * PAGE_SIZE].copy_from_slice(&root);
    data[2 * PAGE_SIZE..3 * PAGE_SIZE].copy_from_slice(&catalog_leaf_page(b'a', 5));
    data[3 * PAGE_SIZE..4 * PAGE_SIZE].copy_from_slice(&catalog_leaf_page(b'b', 6));

    let store = PageStore { page_size: PAGE_SIZE as u32, page_count: 4, data };
    let root_page = parse_page(&root, 2, PAGE_SIZE as u32, PAGE_SIZE as u32).unwrap();
    let entries = collect_schema_entries(&root_page, &store, PAGE_SIZE as u32).unwrap();
    assert_eq!(entries.len(), 2);
    assert_eq!(entries[0].name, "a");
    assert_eq!(entries[0].root_page, 5);
    assert_eq!(entries[1].name, "b");
    assert_eq!(entries[1].root_page, 6);
}
