pub mod btree;
pub mod schema;

pub use btree::{build_btree, expand_overflow_chains, BTreeStats};
pub use schema::{collect_schema_entries, parse_schema, parse_schema_record};
