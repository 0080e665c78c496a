use crate::model::page::{Page, PageV};
use vstd::prelude::*;

verus! {

/// WAL file magic number for big-endian checksums.
pub const WAL_MAGIC_BIG_ENDIAN: u32 = 0x377f0682;

/// WAL file magic number for little-endian checksums.
pub const WAL_MAGIC_LITTLE_ENDIAN: u32 = 0x377f0683;

/// WAL file header (32 bytes).
#[derive(Debug, Clone, Copy, PartialEq, Eq, Structural)]
pub struct WalHeader {
    /// Magic number (0x377f0682 or 0x377f0683).
    pub magic: u32,
    /// File format version (currently 3007000).
    pub format_version: u32,
    /// Database page size.
    pub page_size: u32,
    /// Checkpoint sequence number.
    pub checkpoint_sequence: u32,
    /// Salt-1: random integer incremented with each checkpoint.
    pub salt1: u32,
    /// Salt-2: different random integer per checkpoint.
    pub salt2: u32,
    /// Checksum-1: cumulative checksum over header.
    pub checksum1: u32,
    /// Checksum-2: cumulative checksum over header.
    pub checksum2: u32,
}

impl WalHeader {
    /// Whether this WAL uses big-endian checksums.
    pub fn is_big_endian(&self) -> (r: bool)
        ensures
            r == (self.magic == WAL_MAGIC_BIG_ENDIAN),
    {
        self.magic == WAL_MAGIC_BIG_ENDIAN
    }
}

/// WAL frame header (24 bytes).
#[derive(Debug, Clone, Copy, PartialEq, Eq, Structural)]
pub struct WalFrameHeader {
    /// Page number in the database file.
    pub page_number: u32,
    /// Size of database in pages after this commit (0 if not a commit
    /// frame).
    pub db_size_after_commit: u32,
    /// Salt-1 copy (must match the WAL header).
    pub salt1: u32,
    /// Salt-2 copy (must match the WAL header).
    pub salt2: u32,
    /// Checksum-1 for this frame.
    pub checksum1: u32,
    /// Checksum-2 for this frame.
    pub checksum2: u32,
}

impl WalFrameHeader {
    /// Whether this frame is a commit frame.
    pub fn is_commit_frame(&self) -> (r: bool)
        ensures
            r == (self.db_size_after_commit > 0),
    {
        self.db_size_after_commit > 0
    }
}

/// A complete WAL frame (header plus page image).
#[derive(Debug, Clone, PartialEq)]
pub struct WalFrame {
    /// Frame index (0-based position in the WAL file).
    pub frame_index: usize,
    /// Frame header.
    pub header: WalFrameHeader,
    /// Parsed page content (`None` if the page could not be parsed).
    pub page: Option<Page>,
    /// Raw page data.
    pub raw_page_data: Vec<u8>,
}

/// The mathematical shape of a [`WalFrame`].
pub struct WalFrameV {
    pub frame_index: usize,
    pub header: WalFrameHeader,
    pub page: Option<PageV>,
    pub raw_page_data: Seq<u8>,
}

/// The page of an `Option<Page>`, viewed.
pub open spec fn spec_page_option_view(p: &Option<Page>) -> Option<PageV> {
    match p {
        Some(pg) => Some(pg@),
        None => None,
    }
}

impl View for WalFrame {
    type V = WalFrameV;

    open spec fn view(&self) -> WalFrameV {
        WalFrameV {
            frame_index: self.frame_index,
            header: self.header,
            page: spec_page_option_view(&self.page),
            raw_page_data: self.raw_page_data@,
        }
    }
}

impl DeepView for WalFrame {
    type V = WalFrameV;

    open spec fn deep_view(&self) -> WalFrameV {
        self.view()
    }
}

/// Parsed WAL file structure.
#[derive(Debug, Clone, PartialEq)]
pub struct WalFile {
    /// WAL header.
    pub header: WalHeader,
    /// All valid frames, in file order.
    pub frames: Vec<WalFrame>,
    /// Source file name.
    pub file_name: String,
}

/// The mathematical shape of a [`WalFile`].
pub struct WalFileV {
    pub header: WalHeader,
    pub frames: Seq<WalFrameV>,
    pub file_name: Seq<char>,
}

impl View for WalFile {
    type V = WalFileV;

    open spec fn view(&self) -> WalFileV {
        WalFileV {
            header: self.header,
            frames: self.frames.deep_view(),
            file_name: self.file_name@,
        }
    }
}

} // verus!
