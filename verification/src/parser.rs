pub mod bytes;
pub mod cell;
pub mod header;
pub mod overflow;
pub mod page;
pub mod record;
pub mod varint;
pub mod wal;

pub use cell::{calculate_local_payload_size, max_local_payload, min_local_payload, parse_cell};
pub use header::parse_database_header;
pub use overflow::{follow_overflow_chain, parse_overflow_header, OverflowChainInfo};
pub use page::{parse_overflow_page, parse_page};
pub use record::parse_record;
pub use varint::{encode_varint, parse_signed_varint, parse_varint};
pub use wal::{is_wal_file, parse_wal_file, parse_wal_frame_header, parse_wal_header};
