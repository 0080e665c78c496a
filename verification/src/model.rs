pub mod btree;
pub mod cell;
pub mod database;
pub mod page;
pub mod schema;
pub mod wal;

pub use btree::{BTree, BTreeNode, BTreeType, OverflowChain};
pub use cell::{Cell, IndexInteriorCell, IndexLeafCell, Record, SerialType, TableInteriorCell,
    TableLeafCell, Value};
pub use database::{DatabaseHeader, TextEncoding};
pub use page::{BTreePageHeader, OverflowPage, Page, PageType};
pub use schema::{ObjectType, Schema, SchemaEntry};
pub use wal::{WalFile, WalFrame, WalFrameHeader, WalHeader, WAL_MAGIC_BIG_ENDIAN, WAL_MAGIC_LITTLE_ENDIAN};
