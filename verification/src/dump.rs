use crate::parser::header::spec_magic;
use crate::parser::wal::{is_wal_file, spec_is_wal_file};
use vstd::prelude::*;

verus! {

/// Detected file type.
#[derive(Debug, Clone, Copy, PartialEq, Eq, Structural)]
pub enum FileType {
    /// Standard SQLite database file.
    SqliteDb,
    /// Write-ahead-log file.
    WalFile,
    /// Unknown file format.
    Unknown,
}

/// The file type that the magic bytes at the front of a buffer
/// announce: the 16-byte database magic, one of the two 4-byte WAL
/// magic values, or nothing recognizable.
pub open spec fn spec_detect_file_type(data: Seq<u8>) -> FileType {
    if data.len() >= 16 && data.subrange(0, 16) == spec_magic() {
        FileType::SqliteDb
    } else if spec_is_wal_file(data) {
        FileType::WalFile
    } else {
        FileType::Unknown
    }
}

/// Detect the file type from raw data by checking magic bytes.
pub fn detect_file_type(data: &[u8]) -> (r: FileType)
    ensures
        r == spec_detect_file_type(data@),
{
    if data.len() >= 16 {
        let magic: [u8; 16] = [
            0x53, 0x51, 0x4c, 0x69, 0x74, 0x65, 0x20, 0x66, 0x6f, 0x72, 0x6d, 0x61, 0x74, 0x20,
            0x33, 0x00,
        ];
        let mut i: usize = 0;
        let mut is_db = true;
        while i < 16
            invariant
                i <= 16,
                data@.len() >= 16,
                magic@ == spec_magic(),
                is_db <==> (forall|j: int| 0 <= j < i ==> data@[j] == spec_magic()[j]),
            decreases 16 - i,
        {
            if data[i] != magic[i] {
                is_db = false;
            }
            i = i + 1;
        }
        if is_db {
            proof {
                assert(data@.subrange(0, 16) =~= spec_magic());
            }
            return FileType::SqliteDb;
        }
        proof {
            let j = choose|j: int| 0 <= j < 16 && data@[j] != spec_magic()[j];
            assert(data@.subrange(0, 16)[j] != spec_magic()[j]);
        }
    }
    if is_wal_file(data) {
        FileType::WalFile
    } else {
        FileType::Unknown
    }
}

/// Options for controlling what gets dumped.
#[derive(Debug, Clone, PartialEq)]
pub struct DumpOptions {
    /// Specific B-trees to dump (by name); `None` dumps all.
    pub btrees: Option<Vec<String>>,
    /// Specific pages to dump (by number); `None` dumps based on the
    /// B-tree selection.
    pub pages: Option<Vec<u32>>,
    /// When set, hex dumps are omitted from the output.
    pub no_hex: bool,
}

} // verus!
