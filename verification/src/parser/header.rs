use crate::error::SqliteVizError;
use crate::model::database::{DatabaseHeader, spec_text_encoding_from_u32, TextEncoding};
use crate::parser::bytes::{read_be_u16, read_be_u32, spec_be_uint};
use vstd::prelude::*;

verus! {

/// The 16-byte magic string that every SQLite database file begins
/// with: the ASCII text `SQLite format 3` followed by a NUL byte.
pub open spec fn spec_magic() -> Seq<u8> {
    seq![
        0x53u8,
        0x51,
        0x4c,
        0x69,
        0x74,
        0x65,
        0x20,
        0x66,
        0x6f,
        0x72,
        0x6d,
        0x61,
        0x74,
        0x20,
        0x33,
        0x00,
    ]
}

/// The raw big-endian page-size field, with the sentinel value 1
/// meaning 65536.
pub open spec fn spec_page_size(data: Seq<u8>) -> u32 {
    let raw = spec_be_uint(data, 16, 2);
    if raw == 1 {
        65536
    } else {
        raw as u32
    }
}

/// The raw text-encoding code at bytes 56-59.
pub open spec fn spec_text_encoding_raw(data: Seq<u8>) -> u32 {
    spec_be_uint(data, 56, 4) as u32
}

/// The database header that a 100-byte buffer with a valid magic and
/// text encoding decodes to: every multi-byte field big-endian, at
/// its fixed offset.
pub open spec fn spec_database_header(data: Seq<u8>) -> DatabaseHeader {
    DatabaseHeader {
        page_size: spec_page_size(data),
        file_format_write: data[18],
        file_format_read: data[19],
        reserved_bytes_per_page: data[20],
        max_payload_fraction: data[21],
        min_payload_fraction: data[22],
        leaf_payload_fraction: data[23],
        file_change_counter: spec_be_uint(data, 24, 4) as u32,
        database_size_pages: spec_be_uint(data, 28, 4) as u32,
        first_freelist_page: spec_be_uint(data, 32, 4) as u32,
        freelist_page_count: spec_be_uint(data, 36, 4) as u32,
        schema_cookie: spec_be_uint(data, 40, 4) as u32,
        schema_format: spec_be_uint(data, 44, 4) as u32,
        default_cache_size: spec_be_uint(data, 48, 4) as u32,
        largest_root_page: spec_be_uint(data, 52, 4) as u32,
        text_encoding: spec_text_encoding_from_u32(spec_text_encoding_raw(data))->Some_0,
        user_version: spec_be_uint(data, 60, 4) as u32,
        incremental_vacuum: spec_be_uint(data, 64, 4) as u32,
        application_id: spec_be_uint(data, 68, 4) as u32,
        version_valid_for: spec_be_uint(data, 92, 4) as u32,
        sqlite_version: spec_be_uint(data, 96, 4) as u32,
    }
}

/// Parse the 100-byte SQLite database header.
///
/// A buffer shorter than 100 bytes is rejected as truncated; a wrong
/// magic string and an undefined text-encoding code are each rejected
/// with their own error; anything else decodes, field by field, with
/// no further range validation.
pub fn parse_database_header(data: &[u8]) -> (r: Result<DatabaseHeader, SqliteVizError>)
    ensures
        data@.len() < 100 ==> r == Err::<DatabaseHeader, SqliteVizError>(
            SqliteVizError::UnexpectedEof { context: "database header" },
        ),
        data@.len() >= 100 && data@.subrange(0, 16) != spec_magic() ==> r == Err::<
            DatabaseHeader,
            SqliteVizError,
        >(SqliteVizError::InvalidMagic),
        data@.len() >= 100 && data@.subrange(0, 16) == spec_magic()
            && spec_text_encoding_from_u32(spec_text_encoding_raw(data@)) is None ==> r == Err::<
            DatabaseHeader,
            SqliteVizError,
        >(SqliteVizError::InvalidTextEncoding(spec_text_encoding_raw(data@))),
        data@.len() >= 100 && data@.subrange(0, 16) == spec_magic()
            && spec_text_encoding_from_u32(spec_text_encoding_raw(data@)) is Some ==> r == Ok::<
            DatabaseHeader,
            SqliteVizError,
        >(spec_database_header(data@)),
{
    if data.len() < 100 {
        return Err(SqliteVizError::UnexpectedEof { context: "database header" });
    }

    let magic: [u8; 16] = [
        0x53, 0x51, 0x4c, 0x69, 0x74, 0x65, 0x20, 0x66, 0x6f, 0x72, 0x6d, 0x61, 0x74, 0x20, 0x33,
        0x00,
    ];
    let mut i: usize = 0;
    while i < 16
        invariant
            i <= 16,
            data@.len() >= 100,
            magic@ == spec_magic(),
            forall|j: int| 0 <= j < i ==> data@[j] == spec_magic()[j],
        decreases 16 - i,
    {
        if data[i] != magic[i] {
            proof {
                assert(data@.subrange(0, 16)[i as int] != spec_magic()[i as int]);
            }
            return Err(SqliteVizError::InvalidMagic);
        }
        i = i + 1;
    }
    proof {
        assert(data@.subrange(0, 16) =~= spec_magic());
    }

    let page_size_raw = read_be_u16(data, 16);
    let page_size: u32 = if page_size_raw == 1 {
        65536
    } else {
        page_size_raw as u32
    };

    let text_encoding_raw = read_be_u32(data, 56);
    let text_encoding = match TextEncoding::from_u32(text_encoding_raw) {
        Some(enc) => enc,
        None => {
            return Err(SqliteVizError::InvalidTextEncoding(text_encoding_raw));
        },
    };

    Ok(
        DatabaseHeader {
            page_size,
            file_format_write: data[18],
            file_format_read: data[19],
            reserved_bytes_per_page: data[20],
            max_payload_fraction: data[21],
            min_payload_fraction: data[22],
            leaf_payload_fraction: data[23],
            file_change_counter: read_be_u32(data, 24),
            database_size_pages: read_be_u32(data, 28),
            first_freelist_page: read_be_u32(data, 32),
            freelist_page_count: read_be_u32(data, 36),
            schema_cookie: read_be_u32(data, 40),
            schema_format: read_be_u32(data, 44),
            default_cache_size: read_be_u32(data, 48),
            largest_root_page: read_be_u32(data, 52),
            text_encoding,
            user_version: read_be_u32(data, 60),
            incremental_vacuum: read_be_u32(data, 64),
            application_id: read_be_u32(data, 68),
            version_valid_for: read_be_u32(data, 92),
            sqlite_version: read_be_u32(data, 96),
        },
    )
}

} // verus!
