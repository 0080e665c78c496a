use sqlite_viz::analyzer::btree::{build_btree, expand_overflow_chains};
use sqlite_viz::model::btree::{BTree, BTreeNode, BTreeType, OverflowChain};
use sqlite_viz::model::page::PageType;
use sqlite_viz::parser::overflow::follow_overflow_chain;
use sqlite_viz::PageStore;

const PAGE_SIZE: usize = 512;

/// A store with `n` zeroed pages of 512 bytes.
fn empty_store(n: u32) -> PageStore {
    PageStore {
        page_size: PAGE_SIZE as u32,
        page_count: n,
        data: vec![0u8; PAGE_SIZE * n as usize],
    }
}

fn put(store: &mut PageStore, page: u32, offset: usize, bytes: &[u8]) {
    let base = (page as usize - 1) * PAGE_SIZE + offset;
    store.data[base..base + bytes.len()].copy_from_slice(bytes);
}

/// Pages 2 (interior root), 3 and 4 (leaves): the root's one cell
/// points at page 3, its right-most pointer at page 4.
fn two_level_store() -> PageStore {
    let mut store = empty_store(4);
    // root: interior table page
    put(&mut store, 2, 0, &[0x05]); // page type
    put(&mut store, 2, 3, &[0x00, 0x01]); // cell count 1
    put(&mut store, 2, 5, &[0x01, 0xF4]); // content start 500
    put(&mut store, 2, 8, &[0x00, 0x00, 0x00, 0x04]); // right-most pointer: 4
    put(&mut store, 2, 12, &[0x01, 0xF4]); // cell pointer: 500
    put(&mut store, 2, 500, &[0x00, 0x00, 0x00, 0x03, 0x2A]); // left child 3, rowid 42
    // leaves: leaf table pages with no cells
    for page in [3u32, 4] {
        put(&mut store, page, 0, &[0x0D]);
        put(&mut store, page, 5, &[0x02, 0x00]); // content start 512
    }
    store
}

#[test]
fn test_build_btree_shape() {
    let store = two_level_store();
    let tree = build_btree("t".to_string(), 2, BTreeType::Table, &store, 512).unwrap();
    assert_eq!(tree.name, "t");
    assert_eq!(tree.root_page, 2);
    assert_eq!(tree.depth, 1);
    assert_eq!(tree.total_cells, 1);
    let numbers: Vec<u32> = tree.nodes.iter().map(|n| n.page_number).collect();
    assert_eq!(numbers, vec![2, 3, 4]);
    let root = &tree.nodes[0];
    assert_eq!(root.page_type, PageType::InteriorTable);
    assert_eq!(root.depth, 0);
    assert_eq!(root.parent, None);
    assert_eq!(root.children, vec![3, 4]);
    assert_eq!(root.cell_count, 1);
    for leaf in &tree.nodes[1..] {
        assert_eq!(leaf.page_type, PageType::LeafTable);
        assert_eq!(leaf.depth, 1);
        assert_eq!(leaf.parent, Some(2));
        assert!(leaf.children.is_empty());
    }
}

#[test]
fn test_build_btree_deterministic() {
    // Two separate invocations over the same fixed store produce the
    // same node list, already in page-number order.
    let store = two_level_store();
    let first = build_btree("t".to_string(), 2, BTreeType::Table, &store, 512).unwrap();
    let second = build_btree("t".to_string(), 2, BTreeType::Table, &store, 512).unwrap();
    assert_eq!(first, second);
    for w in first.nodes.windows(2) {
        assert!(w[0].page_number < w[1].page_number);
    }
    let max_depth = first.nodes.iter().map(|n| n.depth).max().unwrap();
    assert_eq!(first.depth, max_depth);
}

#[test]
fn test_build_btree_cyclic_graph_terminates() {
    // Pages 2 and 3 point at each other; the walk visits each page
    // once and stops.
    let mut store = empty_store(3);
    for (page, child) in [(2u32, 3u32), (3, 2)] {
        put(&mut store, page, 0, &[0x05]);
        put(&mut store, page, 3, &[0x00, 0x00]); // no cells
        put(&mut store, page, 5, &[0x02, 0x00]);
        let c = child.to_be_bytes();
        put(&mut store, page, 8, &c); // right-most pointer
    }
    let tree = build_btree("loop".to_string(), 2, BTreeType::Table, &store, 512).unwrap();
    let numbers: Vec<u32> = tree.nodes.iter().map(|n| n.page_number).collect();
    assert_eq!(numbers, vec![2, 3]);
}

#[test]
fn test_build_btree_missing_page_is_error() {
    let store = empty_store(1);
    assert!(build_btree("t".to_string(), 9, BTreeType::Table, &store, 512).is_err());
}

#[test]
fn test_overflow_chain_cycle_terminates() {
    // Page 1 links to page 2, page 2 back to page 1: the walk must
    // stop at the safety cap instead of hanging.
    let mut store = PageStore { page_size: 16, page_count: 2, data: vec![0u8; 32] };
    store.data[0..4].copy_from_slice(&2u32.to_be_bytes());
    store.data[16..20].copy_from_slice(&1u32.to_be_bytes());
    let info = follow_overflow_chain(1, 16, 10_000_000, &store).unwrap();
    assert_eq!(info.pages.len(), 100_001);
    assert_eq!(info.pages[0].page_number, 1);
    assert_eq!(info.pages[1].page_number, 2);
    assert_eq!(info.pages[2].page_number, 1);
}

#[test]
fn test_overflow_chain_ends_at_zero_link() {
    // Page 1 links to page 2, page 2 ends the chain; 30 bytes remain,
    // 12 content bytes per page.
    let mut store = PageStore { page_size: 16, page_count: 2, data: vec![0u8; 32] };
    store.data[0..4].copy_from_slice(&2u32.to_be_bytes());
    let info = follow_overflow_chain(1, 16, 30, &store).unwrap();
    assert_eq!(info.pages.len(), 2);
    assert_eq!(info.pages[0].content_size, 12);
    assert_eq!(info.pages[1].content_size, 12);
    assert_eq!(info.total_bytes, 24);
    assert_eq!(info.pages[0].next_page, Some(2));
    assert_eq!(info.pages[1].next_page, None);
}

fn stub_node(page_number: u32, chains: Vec<OverflowChain>) -> BTreeNode {
    BTreeNode {
        page_number,
        page_type: PageType::LeafTable,
        depth: 0,
        cell_count: 0,
        children: Vec::new(),
        overflow_chains: chains,
        size_used: 8,
        size_free: 100,
        parent: None,
    }
}

#[test]
fn test_overflow_chain_stops_when_bytes_run_out() {
    // Page 1 links on to page 2, but the payload is fully attributed
    // after page 1: the walk stops without fetching page 2.
    let mut store = PageStore { page_size: 16, page_count: 2, data: vec![0u8; 32] };
    store.data[0..4].copy_from_slice(&2u32.to_be_bytes());
    let info = follow_overflow_chain(1, 16, 12, &store).unwrap();
    assert_eq!(info.pages.len(), 1);
    assert_eq!(info.pages[0].content_size, 12);
    assert_eq!(info.total_bytes, 12);
}

#[test]
fn test_expand_overflow_chains() {
    // A stub chain holding only its first page gets replaced by the
    // walked chain 1 -> 2.
    let mut store = PageStore { page_size: 16, page_count: 2, data: vec![0u8; 32] };
    store.data[0..4].copy_from_slice(&2u32.to_be_bytes());
    let chain = OverflowChain { cell_index: 0, pages: vec![1], total_bytes: 20 };
    let mut tree = BTree {
        name: "t".to_string(),
        root_page: 5,
        tree_type: BTreeType::Table,
        nodes: vec![stub_node(5, vec![chain])],
        depth: 0,
        total_cells: 0,
    };
    expand_overflow_chains(&mut tree, &store, 16).unwrap();
    assert_eq!(tree.nodes[0].overflow_chains[0].pages, vec![1, 2]);
    assert_eq!(tree.nodes[0].overflow_chains[0].total_bytes, 20);
}

#[test]
fn test_stats() {
    let store = two_level_store();
    let tree = build_btree("t".to_string(), 2, BTreeType::Table, &store, 512).unwrap();
    let stats = tree.stats();
    assert_eq!(stats.total_pages, 3);
    assert_eq!(stats.interior_pages, 1);
    assert_eq!(stats.leaf_pages, 2);
    assert_eq!(stats.total_cells, 1);
    assert_eq!(stats.depth, 1);
    assert_eq!(stats.overflow_pages, 0);
    let used: usize = tree.nodes.iter().map(|n| n.size_used).sum();
    let free: usize = tree.nodes.iter().map(|n| n.size_free).sum();
    assert_eq!(stats.total_size_used, used);
    assert_eq!(stats.total_size_free, free);
}
