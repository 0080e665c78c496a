use crate::model::page::PageType;
use vstd::prelude::*;

verus! {

/// Type of B-tree.
#[derive(Debug, Clone, Copy, PartialEq, Eq, Structural)]
pub enum BTreeType {
    Table,
    Index,
}

/// A chain of overflow pages hanging off one cell.
#[derive(Debug, Clone, PartialEq)]
pub struct OverflowChain {
    /// Cell index within the owning page.
    pub cell_index: usize,
    /// Page numbers in the chain.
    pub pages: Vec<u32>,
    /// Total bytes in overflow.
    pub total_bytes: usize,
}

/// The mathematical shape of an [`OverflowChain`].
pub struct OverflowChainV {
    pub cell_index: usize,
    pub pages: Seq<u32>,
    pub total_bytes: usize,
}

impl View for OverflowChain {
    type V = OverflowChainV;

    open spec fn view(&self) -> OverflowChainV {
        OverflowChainV {
            cell_index: self.cell_index,
            pages: self.pages@,
            total_bytes: self.total_bytes,
        }
    }
}

impl DeepView for OverflowChain {
    type V = OverflowChainV;

    open spec fn deep_view(&self) -> OverflowChainV {
        self.view()
    }
}

/// A node in the B-tree: one visited page with its annotations.
#[derive(Debug, Clone, PartialEq)]
pub struct BTreeNode {
    /// Page number.
    pub page_number: u32,
    /// Page type.
    pub page_type: PageType,
    /// Depth in the tree (0 at the root).
    pub depth: usize,
    /// Number of cells in this page.
    pub cell_count: usize,
    /// Child page numbers: the cells' left children, then the
    /// interior right-most pointer.
    pub children: Vec<u32>,
    /// Overflow chains originating from this page.
    pub overflow_chains: Vec<OverflowChain>,
    /// Bytes used in the page.
    pub size_used: usize,
    /// Free bytes in the page.
    pub size_free: usize,
    /// Parent page number (`None` at the root).
    pub parent: Option<u32>,
}

/// The mathematical shape of a [`BTreeNode`].
pub struct BTreeNodeV {
    pub page_number: u32,
    pub page_type: PageType,
    pub depth: usize,
    pub cell_count: usize,
    pub children: Seq<u32>,
    pub overflow_chains: Seq<OverflowChainV>,
    pub size_used: usize,
    pub size_free: usize,
    pub parent: Option<u32>,
}

impl View for BTreeNode {
    type V = BTreeNodeV;

    open spec fn view(&self) -> BTreeNodeV {
        BTreeNodeV {
            page_number: self.page_number,
            page_type: self.page_type,
            depth: self.depth,
            cell_count: self.cell_count,
            children: self.children@,
            overflow_chains: self.overflow_chains.deep_view(),
            size_used: self.size_used,
            size_free: self.size_free,
            parent: self.parent,
        }
    }
}

impl DeepView for BTreeNode {
    type V = BTreeNodeV;

    open spec fn deep_view(&self) -> BTreeNodeV {
        self.view()
    }
}

/// A complete B-tree: the flattened set of pages reached from a root,
/// sorted by page number.
#[derive(Debug, Clone, PartialEq)]
pub struct BTree {
    /// Name of the table or index.
    pub name: String,
    /// Root page number.
    pub root_page: u32,
    /// Type of B-tree.
    pub tree_type: BTreeType,
    /// All visited pages, sorted by page number.
    pub nodes: Vec<BTreeNode>,
    /// Maximum depth over all nodes.
    pub depth: usize,
    /// Total number of cells across all pages.
    pub total_cells: usize,
}

/// The mathematical shape of a [`BTree`].
pub struct BTreeV {
    pub name: Seq<char>,
    pub root_page: u32,
    pub tree_type: BTreeType,
    pub nodes: Seq<BTreeNodeV>,
    pub depth: usize,
    pub total_cells: usize,
}

impl View for BTree {
    type V = BTreeV;

    open spec fn view(&self) -> BTreeV {
        BTreeV {
            name: self.name@,
            root_page: self.root_page,
            tree_type: self.tree_type,
            nodes: self.nodes.deep_view(),
            depth: self.depth,
            total_cells: self.total_cells,
        }
    }
}

} // verus!
