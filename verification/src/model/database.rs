use crate::text::{decode_text, lemma_decimal_bytes_ascii, push_decimal, spec_decimal_chars};
use vstd::prelude::*;

verus! {

/// Text encoding used in the database.
#[derive(Debug, Clone, Copy, PartialEq, Eq, Structural)]
pub enum TextEncoding {
    Utf8,
    Utf16Le,
    Utf16Be,
}

/// The text encoding that a raw header code denotes: 1, 2 and 3 are
/// the defined codes, everything else is invalid.
pub open spec fn spec_text_encoding_from_u32(value: u32) -> Option<TextEncoding> {
    if value == 1 {
        Some(TextEncoding::Utf8)
    } else if value == 2 {
        Some(TextEncoding::Utf16Le)
    } else if value == 3 {
        Some(TextEncoding::Utf16Be)
    } else {
        None
    }
}

impl TextEncoding {
    /// Decode a raw text-encoding code.
    pub fn from_u32(value: u32) -> (r: Option<Self>)
        ensures
            r == spec_text_encoding_from_u32(value),
    {
        if value == 1 {
            Some(TextEncoding::Utf8)
        } else if value == 2 {
            Some(TextEncoding::Utf16Le)
        } else if value == 3 {
            Some(TextEncoding::Utf16Be)
        } else {
            None
        }
    }
}

/// The 100-byte SQLite database header.
#[derive(Debug, Clone, Copy, PartialEq, Eq, Structural)]
pub struct DatabaseHeader {
    /// Database page size in bytes (power of 2, 512-65536).
    pub page_size: u32,
    /// File format write version (1 = legacy, 2 = WAL).
    pub file_format_write: u8,
    /// File format read version.
    pub file_format_read: u8,
    /// Bytes of unused space at end of each page.
    pub reserved_bytes_per_page: u8,
    /// Maximum embedded payload fraction (must be 64).
    pub max_payload_fraction: u8,
    /// Minimum embedded payload fraction (must be 32).
    pub min_payload_fraction: u8,
    /// Leaf payload fraction (must be 32).
    pub leaf_payload_fraction: u8,
    /// File change counter.
    pub file_change_counter: u32,
    /// Size of database in pages.
    pub database_size_pages: u32,
    /// Page number of first freelist trunk page.
    pub first_freelist_page: u32,
    /// Total number of freelist pages.
    pub freelist_page_count: u32,
    /// Schema cookie.
    pub schema_cookie: u32,
    /// Schema format number (1, 2, 3, or 4).
    pub schema_format: u32,
    /// Default page cache size.
    pub default_cache_size: u32,
    /// Page number of largest root btree page (auto-vacuum).
    pub largest_root_page: u32,
    /// Text encoding.
    pub text_encoding: TextEncoding,
    /// User version.
    pub user_version: u32,
    /// Incremental vacuum mode flag.
    pub incremental_vacuum: u32,
    /// Application ID.
    pub application_id: u32,
    /// Version-valid-for number.
    pub version_valid_for: u32,
    /// SQLite version number, packed as `MMMmmmppp`.
    pub sqlite_version: u32,
}

/// The characters of the dotted version string packed into a SQLite
/// version number: major, minor and patch separated by dots.
pub open spec fn spec_version_chars(v: u32) -> Seq<char> {
    spec_decimal_chars(v as int / 1000000) + seq!['.'] + spec_decimal_chars(
        (v as int / 1000) % 1000,
    ) + seq!['.'] + spec_decimal_chars(v as int % 1000)
}

impl DatabaseHeader {
    /// The usable page size: the page size less the reserved bytes at
    /// the end of each page.
    pub fn usable_size(&self) -> (r: u32)
        requires
            self.reserved_bytes_per_page as u32 <= self.page_size,
        ensures
            r == self.page_size - self.reserved_bytes_per_page as u32,
    {
        self.page_size - self.reserved_bytes_per_page as u32
    }

    /// Format the packed SQLite version number as a dotted string
    /// (for instance `3.39.0`).
    pub fn sqlite_version_string(&self) -> (r: String)
        ensures
            r@ == spec_version_chars(self.sqlite_version),
    {
        let major = self.sqlite_version / 1_000_000;
        let minor = (self.sqlite_version / 1_000) % 1_000;
        let patch = self.sqlite_version % 1_000;
        let mut bytes: Vec<u8> = Vec::new();
        push_decimal(major, &mut bytes);
        bytes.push(0x2e);
        push_decimal(minor, &mut bytes);
        bytes.push(0x2e);
        push_decimal(patch, &mut bytes);
        let r = decode_text(bytes.as_slice());
        proof {
            lemma_decimal_bytes_ascii(major as int);
            lemma_decimal_bytes_ascii(minor as int);
            lemma_decimal_bytes_ascii(patch as int);
            assert(forall|i: int| 0 <= i < bytes@.len() ==> bytes@[i] < 0x80);
            assert(r@ =~= spec_version_chars(self.sqlite_version));
        }
        r
    }
}

} // verus!
