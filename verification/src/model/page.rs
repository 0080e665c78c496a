use crate::model::cell::{Cell, CellV};
use vstd::prelude::*;

verus! {

/// Page type flags as defined in the SQLite format.
#[derive(Debug, Clone, Copy, PartialEq, Eq, Structural)]
pub enum PageType {
    /// Interior index B-tree page (0x02).
    InteriorIndex,
    /// Interior table B-tree page (0x05).
    InteriorTable,
    /// Leaf index B-tree page (0x0a).
    LeafIndex,
    /// Leaf table B-tree page (0x0d).
    LeafTable,
    /// Overflow page.
    Overflow,
    /// Freelist trunk page.
    FreelistTrunk,
    /// Freelist leaf page.
    FreelistLeaf,
    /// Pointer map page (auto-vacuum databases).
    PointerMap,
    /// Lock-byte page.
    LockByte,
}

/// The B-tree page type that a page-type byte denotes, if any.
pub open spec fn spec_page_type_from_byte(byte: u8) -> Option<PageType> {
    if byte == 0x02 {
        Some(PageType::InteriorIndex)
    } else if byte == 0x05 {
        Some(PageType::InteriorTable)
    } else if byte == 0x0a {
        Some(PageType::LeafIndex)
    } else if byte == 0x0d {
        Some(PageType::LeafTable)
    } else {
        None
    }
}

/// Whether this page type is an interior B-tree page.
pub open spec fn spec_is_interior(pt: PageType) -> bool {
    pt == PageType::InteriorIndex || pt == PageType::InteriorTable
}

/// Whether this page type is a leaf B-tree page.
pub open spec fn spec_is_leaf(pt: PageType) -> bool {
    pt == PageType::LeafIndex || pt == PageType::LeafTable
}

/// The B-tree page header length for this page type: twelve bytes for
/// interior pages, eight for the rest.
pub open spec fn spec_header_size(pt: PageType) -> int {
    if spec_is_interior(pt) {
        12
    } else {
        8
    }
}

impl PageType {
    /// Decode a B-tree page-type byte.
    pub fn from_byte(byte: u8) -> (r: Option<Self>)
        ensures
            r == spec_page_type_from_byte(byte),
    {
        if byte == 0x02 {
            Some(PageType::InteriorIndex)
        } else if byte == 0x05 {
            Some(PageType::InteriorTable)
        } else if byte == 0x0a {
            Some(PageType::LeafIndex)
        } else if byte == 0x0d {
            Some(PageType::LeafTable)
        } else {
            None
        }
    }

    /// Whether this is an interior B-tree page type.
    pub fn is_interior(&self) -> (r: bool)
        ensures
            r == spec_is_interior(*self),
    {
        match self {
            PageType::InteriorIndex | PageType::InteriorTable => true,
            _ => false,
        }
    }

    /// Whether this is a leaf B-tree page type.
    pub fn is_leaf(&self) -> (r: bool)
        ensures
            r == spec_is_leaf(*self),
    {
        match self {
            PageType::LeafIndex | PageType::LeafTable => true,
            _ => false,
        }
    }

    /// Whether this is a table B-tree page type.
    pub fn is_table(&self) -> (r: bool)
        ensures
            r == (*self == PageType::InteriorTable || *self == PageType::LeafTable),
    {
        match self {
            PageType::InteriorTable | PageType::LeafTable => true,
            _ => false,
        }
    }

    /// Whether this is an index B-tree page type.
    pub fn is_index(&self) -> (r: bool)
        ensures
            r == (*self == PageType::InteriorIndex || *self == PageType::LeafIndex),
    {
        match self {
            PageType::InteriorIndex | PageType::LeafIndex => true,
            _ => false,
        }
    }

    /// The B-tree page header length for this page type.
    pub fn header_size(&self) -> (r: usize)
        ensures
            r == spec_header_size(*self),
    {
        if self.is_interior() {
            12
        } else {
            8
        }
    }
}

/// B-tree page header.
#[derive(Debug, Clone, Copy, PartialEq, Eq)]
pub struct BTreePageHeader {
    /// Page type.
    pub page_type: PageType,
    /// Byte offset to first freeblock (0 = no freeblocks).
    pub first_freeblock: u16,
    /// Number of cells on this page.
    pub cell_count: u16,
    /// Byte offset to start of cell content area (0 = 65536).
    pub cell_content_start: u16,
    /// Number of fragmented free bytes in cell content area.
    pub fragmented_free_bytes: u8,
    /// Right-most pointer (only for interior pages).
    pub right_most_pointer: Option<u32>,
}

/// Represents a complete parsed page.
#[derive(Debug, Clone, PartialEq)]
pub struct Page {
    /// Page number (1-indexed).
    pub page_number: u32,
    /// Page type.
    pub page_type: PageType,
    /// B-tree header (if this is a B-tree page).
    pub header: Option<BTreePageHeader>,
    /// Cell pointer array (offsets from start of page, on-disk order).
    pub cell_pointers: Vec<u16>,
    /// Parsed cells.
    pub cells: Vec<Cell>,
    /// Calculated free space.
    pub free_space: usize,
    /// Raw page data.
    pub raw_data: Vec<u8>,
}

/// The mathematical shape of a [`Page`].
pub struct PageV {
    pub page_number: u32,
    pub page_type: PageType,
    pub header: Option<BTreePageHeader>,
    pub cell_pointers: Seq<u16>,
    pub cells: Seq<CellV>,
    pub free_space: usize,
    pub raw_data: Seq<u8>,
}

impl View for Page {
    type V = PageV;

    open spec fn view(&self) -> PageV {
        PageV {
            page_number: self.page_number,
            page_type: self.page_type,
            header: self.header,
            cell_pointers: self.cell_pointers@,
            cells: self.cells.deep_view(),
            free_space: self.free_space,
            raw_data: self.raw_data@,
        }
    }
}

impl DeepView for Page {
    type V = PageV;

    open spec fn deep_view(&self) -> PageV {
        self.view()
    }
}

/// Overflow page.
#[derive(Debug, Clone, Copy, PartialEq, Eq, Structural)]
pub struct OverflowPage {
    /// Page number.
    pub page_number: u32,
    /// Next overflow page (`None` at the end of the chain).
    pub next_page: Option<u32>,
    /// Payload content bytes attributed to this overflow page.
    pub content_size: usize,
}

} // verus!
