pub mod analyzer;
pub mod dump;
pub mod error;
pub mod model;
pub mod parser;
pub mod text;

use crate::analyzer::btree::{build_btree, spec_node_children, spec_node_matches, spec_sat_add,
    spec_store_well_formed, spec_sum_cell_counts};
use crate::analyzer::schema::{parse_schema, spec_leaf_schema_entries, spec_store_page};
use crate::error::SqliteVizError;
use crate::model::btree::{BTree, BTreeType};
use crate::model::database::{spec_text_encoding_from_u32, DatabaseHeader};
use crate::model::page::{Page, PageType};
use crate::model::schema::{Schema, SchemaEntryV};
use crate::parser::bytes::copy_bytes;
use crate::parser::header::{parse_database_header, spec_database_header, spec_magic,
    spec_text_encoding_raw};
use crate::parser::page::parse_page;
use vstd::prelude::*;
use vstd::string::StringExecFns;

verus! {

/// A page-addressed source of raw bytes: the whole image of a
/// database (or a synthetic page graph in tests), its page size, and
/// the number of pages it exposes. Page `n` (1-indexed) occupies the
/// bytes from `(n - 1) * page_size` on.
///
/// Traversals take one of these where they need to fetch pages, so
/// that arbitrary page graphs, including corrupt and cyclic ones, can
/// be put together in memory.
#[derive(Debug, Clone, PartialEq)]
pub struct PageStore {
    /// Bytes of one page.
    pub page_size: u32,
    /// Number of pages this store exposes.
    pub page_count: u32,
    /// The raw image, pages back to back.
    pub data: Vec<u8>,
}

impl PageStore {
    /// The raw bytes of page `page_number`, when the page number is
    /// in range and its page lies inside the image.
    pub open spec fn spec_page_bytes(&self, page_number: u32) -> Option<Seq<u8>> {
        if page_number < 1 || page_number > self.page_count {
            None
        } else {
            let off = (page_number - 1) * self.page_size;
            let end = off + self.page_size;
            if end > self.data@.len() {
                None
            } else {
                Some(self.data@.subrange(off as int, end as int))
            }
        }
    }

    /// Read the raw bytes of one page; a page number outside the
    /// store is rejected as out of bounds.
    pub fn read_page_raw(&self, page_number: u32) -> (r: Result<Vec<u8>, SqliteVizError>)
        ensures
            r is Ok <==> self.spec_page_bytes(page_number) is Some,
            r matches Ok(v) ==> Some(v@) == self.spec_page_bytes(page_number),
            r matches Err(e) ==> e == (SqliteVizError::PageOutOfBounds {
                page: page_number,
                total: self.page_count,
            }),
    {
        if page_number < 1 || page_number > self.page_count {
            return Err(
                SqliteVizError::PageOutOfBounds { page: page_number, total: self.page_count },
            );
        }
        proof {
            assert((page_number - 1) * (self.page_size as int) + self.page_size
                <= 0xffff_ffff * 0xffff_ffffint + 0xffff_ffff) by (nonlinear_arith)
                requires
                    1 <= page_number <= 0xffff_ffff,
                    self.page_size <= 0xffff_ffff,
            ;
        }
        let off = (page_number as u64 - 1) * self.page_size as u64;
        let end = off + self.page_size as u64;
        let dlen = self.data.len();
        if end > dlen as u64 {
            return Err(
                SqliteVizError::PageOutOfBounds { page: page_number, total: self.page_count },
            );
        }
        Ok(copy_bytes(self.data.as_slice(), off as usize, self.page_size as usize))
    }
}

/// The usable page size that a header yields, guarded against a
/// reserved count larger than the page itself.
pub open spec fn spec_db_usable_size(h: DatabaseHeader) -> u32 {
    if h.reserved_bytes_per_page as u32 <= h.page_size {
        (h.page_size - h.reserved_bytes_per_page as u32) as u32
    } else {
        0
    }
}

/// The page count of an image: the header's declared count when it
/// is nonzero, otherwise the image length divided by the page size.
pub open spec fn spec_db_page_count(h: DatabaseHeader, len: int) -> u32 {
    if h.database_size_pages > 0 {
        h.database_size_pages
    } else if h.page_size == 0 {
        0
    } else {
        (len / h.page_size as int) as u32
    }
}

/// A database reader over an in-memory image of a database file.
#[derive(Debug, Clone, PartialEq)]
pub struct Database {
    /// The image, addressed page by page.
    pub store: PageStore,
    /// The parsed 100-byte file header.
    pub header: DatabaseHeader,
    /// The name the image was loaded from.
    pub file_name: String,
}

impl Database {
    /// Open a database from the raw bytes of its file.
    ///
    /// The image must be at least 100 bytes and carry a valid header;
    /// the header errors pass through unchanged.
    pub fn from_bytes(data: Vec<u8>, file_name: String) -> (r: Result<Database, SqliteVizError>)
        ensures
            data@.len() < 100 ==> r == Err::<Database, SqliteVizError>(
                SqliteVizError::UnexpectedEof { context: "database file" },
            ),
            data@.len() >= 100 && data@.subrange(0, 16) != spec_magic() ==> r == Err::<
                Database,
                SqliteVizError,
            >(SqliteVizError::InvalidMagic),
            data@.len() >= 100 && data@.subrange(0, 16) == spec_magic()
                && spec_text_encoding_from_u32(spec_text_encoding_raw(data@)) is None ==> r
                == Err::<Database, SqliteVizError>(
                SqliteVizError::InvalidTextEncoding(spec_text_encoding_raw(data@)),
            ),
            r matches Ok(db) ==> {
                &&& data@.len() >= 100
                &&& db.header == spec_database_header(data@)
                &&& db.store.data@ == data@
                &&& db.store.page_size == db.header.page_size
                &&& db.store.page_count == spec_db_page_count(db.header, data@.len() as int)
                &&& db.file_name@ == file_name@
            },
            r is Ok <==> (data@.len() >= 100 && data@.subrange(0, 16) == spec_magic()
                && spec_text_encoding_from_u32(spec_text_encoding_raw(data@)) is Some),
    {
        let dlen = data.len();
        if dlen < 100 {
            return Err(SqliteVizError::UnexpectedEof { context: "database file" });
        }
        let header = match parse_database_header(data.as_slice()) {
            Ok(h) => h,
            Err(e) => {
                return Err(e);
            },
        };
        let page_count: u32 = if header.database_size_pages > 0 {
            header.database_size_pages
        } else if header.page_size == 0 {
            0
        } else {
            #[verifier::truncate] ((dlen as u64 / header.page_size as u64) as u32)
        };
        Ok(
            Database {
                store: PageStore { page_size: header.page_size, page_count, data },
                header,
                file_name,
            },
        )
    }

    /// The usable page size: the page size less the reserved bytes,
    /// zero when the header claims more reserved bytes than a page
    /// holds.
    pub fn usable_size(&self) -> (r: u32)
        ensures
            r == spec_db_usable_size(self.header),
    {
        if self.header.reserved_bytes_per_page as u32 <= self.header.page_size {
            self.header.page_size - self.header.reserved_bytes_per_page as u32
        } else {
            0
        }
    }

    /// The number of pages in the database.
    pub fn page_count(&self) -> (r: u32)
        ensures
            r == self.store.page_count,
    {
        self.store.page_count
    }

    /// Read one page's raw bytes.
    pub fn read_page_raw(&self, page_number: u32) -> (r: Result<Vec<u8>, SqliteVizError>)
        ensures
            r is Ok <==> self.store.spec_page_bytes(page_number) is Some,
            r matches Ok(v) ==> Some(v@) == self.store.spec_page_bytes(page_number),
            r matches Err(e) ==> e == (SqliteVizError::PageOutOfBounds {
                page: page_number,
                total: self.store.page_count,
            }),
    {
        self.store.read_page_raw(page_number)
    }

    /// Fetch and parse one page.
    pub fn parse_page(&self, page_number: u32) -> (r: Result<Page, SqliteVizError>)
        ensures
            r is Ok <==> spec_store_page(
                self.store,
                page_number,
                spec_db_usable_size(self.header) as int,
            ) is Some,
            r matches Ok(p) ==> Some(p@) == spec_store_page(
                self.store,
                page_number,
                spec_db_usable_size(self.header) as int,
            ),
    {
        let page_data = match self.store.read_page_raw(page_number) {
            Ok(d) => d,
            Err(e) => {
                return Err(e);
            },
        };
        parse_page(page_data.as_slice(), page_number, self.store.page_size, self.usable_size())
    }

    /// Parse the schema catalog from page 1.
    pub fn parse_schema(&self) -> (r: Result<Schema, SqliteVizError>)
        ensures
            ({
                let page1 = spec_store_page(
                    self.store,
                    1,
                    spec_db_usable_size(self.header) as int,
                );
                match page1 {
                    None => r is Err,
                    Some(pv) => {
                        &&& r is Err <==> (pv.page_type != PageType::LeafTable && pv.page_type
                            != PageType::InteriorTable)
                        &&& pv.page_type == PageType::LeafTable ==> (r matches Ok(s) && s@.entries
                            == spec_leaf_schema_entries(pv.cells))
                        &&& pv.page_type == PageType::InteriorTable ==> (r matches Ok(s)
                            && s@.entries == Seq::<SchemaEntryV>::empty())
                    },
                }
            }),
    {
        let page1 = match self.parse_page(1) {
            Ok(p) => p,
            Err(e) => {
                return Err(e);
            },
        };
        parse_schema(&page1)
    }

    /// Build the B-tree rooted at `root_page`.
    ///
    /// The result carries the same guarantees as the free-standing
    /// builder: one node per reachable page, each matching its parsed
    /// page, sorted by page number, with every child accounted for.
    pub fn build_btree(&self, name: &str, root_page: u32, tree_type: BTreeType) -> (r: Result<
        BTree,
        SqliteVizError,
    >)
        ensures
            r matches Ok(t) ==> {
                &&& t@.name == name@
                &&& t@.root_page == root_page
                &&& t@.tree_type == tree_type
                &&& 1 <= t@.nodes.len()
                &&& forall|i: int, j: int|
                    0 <= i < j < t@.nodes.len() ==> #[trigger] t@.nodes[i].page_number
                        < #[trigger] t@.nodes[j].page_number
                &&& forall|i: int|
                    0 <= i < t@.nodes.len() ==> spec_node_matches(
                        self.store,
                        spec_db_usable_size(self.header) as int,
                        #[trigger] t@.nodes[i],
                    )
                &&& forall|i: int, c: int|
                    0 <= i < t@.nodes.len() && 0 <= c < t@.nodes[i].children.len() ==> exists|
                        m: int,
                    |
                        0 <= m < t@.nodes.len() && t@.nodes[m].page_number
                            == #[trigger] t@.nodes[i].children[c]
                &&& forall|i: int|
                    0 <= i < t@.nodes.len() ==> #[trigger] t@.nodes[i].depth <= t@.depth
                &&& exists|i: int|
                    0 <= i < t@.nodes.len() && #[trigger] t@.nodes[i].page_number == root_page
                        && t@.nodes[i].depth == 0 && t@.nodes[i].parent is None
                &&& forall|i: int|
                    0 <= i < t@.nodes.len() && (#[trigger] t@.nodes[i]).parent is None
                        ==> t@.nodes[i].page_number == root_page && t@.nodes[i].depth == 0
                &&& forall|i: int|
                    0 <= i < t@.nodes.len() && (#[trigger] t@.nodes[i]).parent is Some ==> exists|
                        k: int,
                    |
                        0 <= k < t@.nodes.len() && (#[trigger] t@.nodes[k]).page_number
                            == t@.nodes[i].parent->Some_0 && t@.nodes[k].children.contains(
                            t@.nodes[i].page_number,
                        ) && t@.nodes[i].depth == spec_sat_add(t@.nodes[k].depth as int, 1)
                &&& t@.total_cells == spec_sum_cell_counts(t@.nodes)
            },
            spec_store_page(self.store, root_page, spec_db_usable_size(self.header) as int)
                is None ==> r is Err,
            (spec_store_page(self.store, root_page, spec_db_usable_size(self.header) as int)
                matches Some(pv) && spec_node_children(pv).len() == 0) ==> r is Ok,
            spec_store_well_formed(
                self.store,
                spec_db_usable_size(self.header) as int,
                root_page,
            ) ==> r is Ok,
            r matches Err(e) ==> (e matches SqliteVizError::PageOutOfBounds { .. } || e matches
                SqliteVizError::UnexpectedEof { .. } || e matches SqliteVizError::InvalidPageType(
                _,
            )),
    {
        build_btree(
            String::from_str(name),
            root_page,
            tree_type,
            &self.store,
            self.usable_size(),
        )
    }
}

} // verus!
