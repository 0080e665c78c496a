use crate::analyzer::schema::spec_store_page;
use crate::error::SqliteVizError;
use crate::model::btree::{BTree, BTreeNode, BTreeNodeV, BTreeType, OverflowChain, OverflowChainV};
use crate::model::cell::{Cell, CellV};
use crate::model::page::{Page, PageV, spec_is_interior, spec_is_leaf};
use crate::parser::overflow::{follow_overflow_chain, spec_follow_chain};
use crate::parser::page::parse_page;
use crate::PageStore;
use vstd::prelude::*;

verus! {

/// Addition that stops at the largest `usize` instead of wrapping.
pub open spec fn spec_sat_add(a: int, b: int) -> int {
    if a + b > usize::MAX {
        usize::MAX as int
    } else {
        a + b
    }
}

fn usize_sat_add(a: usize, b: usize) -> (r: usize)
    ensures
        r == spec_sat_add(a as int, b as int),
{
    if a > usize::MAX - b {
        usize::MAX
    } else {
        a + b
    }
}

/// The child page numbers contributed by the cells from index `i`
/// on: each interior cell's left child, in cell order.
pub open spec fn spec_cell_children(cells: Seq<CellV>, i: int) -> Seq<u32>
    decreases cells.len() - i,
{
    if i < 0 || i >= cells.len() {
        Seq::empty()
    } else {
        let rest = spec_cell_children(cells, i + 1);
        match cells[i].spec_left_child() {
            Some(c) => seq![c] + rest,
            None => rest,
        }
    }
}

/// The child pages of a node: its cells' left children, then the
/// header's right-most pointer when the page is interior.
pub open spec fn spec_node_children(pv: PageV) -> Seq<u32> {
    let left = spec_cell_children(pv.cells, 0);
    match pv.header {
        Some(h) => match h.right_most_pointer {
            Some(rp) => left + seq![rp],
            None => left,
        },
        None => left,
    }
}

/// The overflow bytes of a cell: what the announced payload size
/// leaves beyond the local bytes (zero when nothing overflows),
/// clipped to `usize`.
pub open spec fn spec_overflow_amount(payload_size: u64, local: usize) -> usize {
    (if payload_size >= local {
        payload_size - local
    } else {
        0int
    }) as usize
}

/// The overflow-chain stubs of the cells from index `i` on: one stub
/// per cell that carries an overflow page, holding just that first
/// page; walking the whole chain is a separate pass.
pub open spec fn spec_overflow_stubs(cells: Seq<CellV>, i: int) -> Seq<OverflowChainV>
    decreases cells.len() - i,
{
    if i < 0 || i >= cells.len() {
        Seq::empty()
    } else {
        let rest = spec_overflow_stubs(cells, i + 1);
        match (cells[i].spec_overflow_page(), cells[i].spec_payload_size()) {
            (Some(ovf), Some(ps)) => seq![
                OverflowChainV {
                    cell_index: i as usize,
                    pages: seq![ovf],
                    total_bytes: spec_overflow_amount(ps, cells[i].spec_local_payload_size()),
                },
            ] + rest,
            _ => rest,
        }
    }
}

/// The total size of the cells from index `i` on, saturating.
pub open spec fn spec_cells_total_size(cells: Seq<CellV>, i: int) -> int
    decreases cells.len() - i,
{
    if i < 0 || i >= cells.len() {
        0
    } else {
        spec_sat_add(
            cells[i].spec_cell_size() as int,
            spec_cells_total_size(cells, i + 1),
        )
    }
}

/// The bytes used in a page: the page-1 file-header prefix, the
/// B-tree header, the cell-pointer array, and the cells themselves,
/// saturating.
pub open spec fn spec_size_used(pv: PageV, page_number: u32) -> int {
    let base = (if page_number == 1 {
        100int
    } else {
        0int
    }) + (if spec_is_interior(pv.page_type) {
        12int
    } else {
        8int
    });
    let pointer_bytes = if pv.cells.len() * 2 > usize::MAX {
        usize::MAX as int
    } else {
        pv.cells.len() * 2 as int
    };
    spec_sat_add(spec_sat_add(base, pointer_bytes), spec_cells_total_size(pv.cells, 0))
}

/// What one B-tree node claims about the store: its page fetches and
/// parses, and every annotation is the one that parsed page yields.
/// The depth and parent are traversal facts, stated by the builder.
#[verifier::opaque]
pub open spec fn spec_node_matches(
    store: PageStore,
    usable_size: int,
    n: BTreeNodeV,
) -> bool {
    match spec_store_page(store, n.page_number, usable_size) {
        Some(pv) => {
            &&& n.page_type == pv.page_type
            &&& n.cell_count == pv.cells.len()
            &&& n.children == spec_node_children(pv)
            &&& n.overflow_chains == spec_overflow_stubs(pv.cells, 0)
            &&& n.size_free == pv.free_space
            &&& n.size_used == spec_size_used(pv, n.page_number)
        },
        None => false,
    }
}

/// The total cell count over a node sequence, saturating.
pub open spec fn spec_sum_cell_counts(nodes: Seq<BTreeNodeV>) -> int
    decreases nodes.len(),
{
    if nodes.len() == 0 {
        0
    } else {
        spec_sat_add(nodes[0].cell_count as int, spec_sum_cell_counts(nodes.drop_first()))
    }
}

proof fn lemma_sum_insert(nodes: Seq<BTreeNodeV>, pos: int, x: BTreeNodeV)
    requires
        0 <= pos <= nodes.len(),
    ensures
        spec_sum_cell_counts(nodes.insert(pos, x)) == spec_sat_add(
            x.cell_count as int,
            spec_sum_cell_counts(nodes),
        ),
    decreases pos,
{
    if pos == 0 {
        assert(nodes.insert(0, x) =~= seq![x] + nodes);
        assert(nodes.insert(0, x).drop_first() =~= nodes);
    } else {
        let rest = nodes.drop_first();
        lemma_sum_insert(rest, pos - 1, x);
        assert(nodes.insert(pos, x) =~= seq![nodes[0]] + rest.insert(pos - 1, x));
        assert(nodes.insert(pos, x).drop_first() =~= rest.insert(pos - 1, x));
        assert(nodes.insert(pos, x)[0] == nodes[0]);
        // saturating addition is associative and commutative over
        // non-negative values, so the new element can be pulled out
        assert(spec_sat_add(
            nodes[0].cell_count as int,
            spec_sat_add(x.cell_count as int, spec_sum_cell_counts(rest)),
        ) == spec_sat_add(
            x.cell_count as int,
            spec_sat_add(nodes[0].cell_count as int, spec_sum_cell_counts(rest)),
        ));
    }
}

proof fn lemma_sum_nonneg(nodes: Seq<BTreeNodeV>)
    ensures
        0 <= spec_sum_cell_counts(nodes) <= usize::MAX,
    decreases nodes.len(),
{
    if nodes.len() > 0 {
        lemma_sum_nonneg(nodes.drop_first());
    }
}

/// A sequence of distinct `u32` values drawn from `[lo, hi)` cannot
/// be longer than the width of that range.
proof fn lemma_distinct_bounded_len(s: Seq<u32>, lo: int, hi: int)
    requires
        s.no_duplicates(),
        lo <= hi,
        forall|k: int| 0 <= k < s.len() ==> lo <= #[trigger] s[k] < hi,
    ensures
        s.len() <= hi - lo,
{
    let f = |x: u32| x as int;
    assert(vstd::relations::injective(f));
    s.lemma_no_duplicates_injective(f);
    let m = s.map_values(f);
    m.unique_seq_to_set();
    assert forall|x: int| m.to_set().contains(x) implies lo <= x < hi by {
        assert(m.contains(x));
        let k = choose|k: int| 0 <= k < m.len() && m[k] == x;
        assert(s[k] as int == x);
    }
    assert(m.to_set().subset_of(vstd::set_lib::set_int_range(lo, hi)));
    vstd::set_lib::lemma_int_range(lo, hi);
    vstd::set_lib::lemma_len_subset(m.to_set(), vstd::set_lib::set_int_range(lo, hi));
}

/// Whether `v` holds `x`.
fn vec_contains(v: &Vec<u32>, x: u32) -> (r: bool)
    ensures
        r == v@.contains(x),
{
    let mut i: usize = 0;
    while i < v.len()
        invariant
            i <= v@.len(),
            forall|k: int| 0 <= k < i ==> v@[k] != x,
        decreases v@.len() - i,
    {
        if v[i] == x {
            return true;
        }
        i = i + 1;
    }
    false
}

/// The child page numbers of a parsed page, in traversal order.
fn node_children(page: &Page) -> (r: Vec<u32>)
    ensures
        r@ == spec_node_children(page@),
{
    let ghost cells_v = page.cells.deep_view();
    let mut out: Vec<u32> = Vec::new();
    let mut i: usize = 0;
    proof {
        assert(out@ =~= Seq::<u32>::empty());
    }
    while i < page.cells.len()
        invariant
            i <= page.cells@.len(),
            cells_v == page.cells.deep_view(),
            cells_v.len() == page.cells@.len(),
            spec_cell_children(cells_v, 0) =~= out@ + spec_cell_children(cells_v, i as int),
        decreases page.cells@.len() - i,
    {
        match page.cells[i].left_child() {
            Some(c) => {
                out.push(c);
            },
            None => {},
        }
        i = i + 1;
    }
    proof {
        assert(spec_cell_children(cells_v, 0) =~= out@);
    }
    match &page.header {
        Some(h) => {
            match h.right_most_pointer {
                Some(rp) => {
                    out.push(rp);
                },
                None => {},
            }
        },
        None => {},
    }
    out
}

/// The overflow-chain stubs of a parsed page's cells.
fn overflow_stubs(cells: &Vec<Cell>) -> (r: Vec<OverflowChain>)
    ensures
        r.deep_view() == spec_overflow_stubs(cells.deep_view(), 0),
{
    let ghost cells_v = cells.deep_view();
    let mut out: Vec<OverflowChain> = Vec::new();
    let mut i: usize = 0;
    proof {
        assert(out.deep_view() =~= Seq::<OverflowChainV>::empty());
    }
    while i < cells.len()
        invariant
            i <= cells@.len(),
            cells_v == cells.deep_view(),
            cells_v.len() == cells@.len(),
            spec_overflow_stubs(cells_v, 0) =~= out.deep_view() + spec_overflow_stubs(
                cells_v,
                i as int,
            ),
        decreases cells@.len() - i,
    {
        let cell = &cells[i];
        let ghost prev = out.deep_view();
        match (cell.overflow_page(), cell.payload_size()) {
            (Some(overflow_page), Some(payload_size)) => {
                let local: usize = match cell {
                    Cell::TableLeaf(c) => c.local_payload_size,
                    Cell::IndexLeaf(c) => c.local_payload_size,
                    Cell::IndexInterior(c) => c.local_payload_size,
                    _ => 0,
                };
                let overflow_bytes: usize = if payload_size >= local as u64 {
                    #[verifier::truncate] ((payload_size - local as u64) as usize)
                } else {
                    0
                };
                let mut pages: Vec<u32> = Vec::new();
                pages.push(overflow_page);
                let chain = OverflowChain { cell_index: i, pages, total_bytes: overflow_bytes };
                let ghost cv = chain@;
                out.push(chain);
                proof {
                    assert(cv.pages =~= seq![overflow_page]);
                    assert(out.deep_view() =~= prev + seq![cv]);
                }
            },
            _ => {},
        }
        i = i + 1;
    }
    proof {
        assert(spec_overflow_stubs(cells_v, 0) =~= out.deep_view());
    }
    out
}

fn sorted_insert_pos(nodes: &Vec<BTreeNode>, page_number: u32) -> (pos: usize)
    requires
        forall|i: int, j: int|
            0 <= i < j < nodes.deep_view().len() ==> #[trigger] nodes.deep_view()[i].page_number
                < #[trigger] nodes.deep_view()[j].page_number,
    ensures
        pos <= nodes@.len(),
        forall|i: int| 0 <= i < pos ==> #[trigger] nodes.deep_view()[i].page_number < page_number,
        forall|i: int|
            pos <= i < nodes@.len() ==> #[trigger] nodes.deep_view()[i].page_number >= page_number,
{
    let mut pos: usize = 0;
    while pos < nodes.len() && nodes[pos].page_number < page_number
        invariant
            pos <= nodes@.len(),
            nodes.deep_view().len() == nodes@.len(),
            forall|i: int|
                0 <= i < pos ==> #[trigger] nodes.deep_view()[i].page_number < page_number,
        decreases nodes@.len() - pos,
    {
        pos = pos + 1;
    }
    proof {
        assert forall|i: int|
            pos <= i < nodes@.len() implies #[trigger] nodes.deep_view()[i].page_number
            >= page_number by {
            assert(nodes.deep_view()[pos as int].page_number == nodes@[pos as int].page_number);
            if i > pos {
                assert(nodes.deep_view()[pos as int].page_number < nodes.deep_view()[i].page_number);
            }
        }
    }
    pos
}

/// The total size of a parsed page's cells, saturating.
fn cells_total_size(cells: &Vec<Cell>) -> (r: usize)
    ensures
        r == spec_cells_total_size(cells.deep_view(), 0),
{
    let ghost cells_v = cells.deep_view();
    let mut i: usize = cells.len();
    let mut total: usize = 0;
    while i > 0
        invariant
            i <= cells@.len(),
            cells_v == cells.deep_view(),
            cells_v.len() == cells@.len(),
            total == spec_cells_total_size(cells_v, i as int),
        decreases i,
    {
        i = i - 1;
        total = usize_sat_add(cells[i].cell_size(), total);
    }
    total
}


/// One pending traversal step: a page to visit, its depth, and the
/// page it was reached from.
pub type StackEntry = (u32, usize, Option<u32>);

/// The standing facts of a partially built tree: distinct visited
/// pages inside the store's range, one node per visited page, nodes
/// strictly sorted by page number and each matching its parsed page,
/// the running maximum depth and saturating cell total, and a
/// depth-zero parentless node for the root once anything was visited.
#[verifier::opaque]
pub open spec fn spec_tree_state(
    store: PageStore,
    usable_size: int,
    root: u32,
    nodes: Seq<BTreeNodeV>,
    visited: Seq<u32>,
    max_depth: usize,
    total_cells: usize,
) -> bool {
    &&& visited.no_duplicates()
    &&& forall|k: int| 0 <= k < visited.len() ==> 1 <= #[trigger] visited[k] && visited[k]
        <= store.page_count
    &&& nodes.len() == visited.len()
    &&& forall|i: int, j: int|
        0 <= i < j < nodes.len() ==> #[trigger] nodes[i].page_number
            < #[trigger] nodes[j].page_number
    &&& forall|i: int|
        0 <= i < nodes.len() ==> spec_node_matches(store, usable_size, #[trigger] nodes[i])
    &&& forall|m: int| 0 <= m < nodes.len() ==> visited.contains(#[trigger] nodes[m].page_number)
    &&& forall|k: int|
        0 <= k < visited.len() ==> exists|m: int|
            0 <= m < nodes.len() && nodes[m].page_number == #[trigger] visited[k]
    &&& forall|m: int| 0 <= m < nodes.len() ==> #[trigger] nodes[m].depth <= max_depth
    &&& (nodes.len() == 0 ==> max_depth == 0)
    &&& (nodes.len() > 0 ==> exists|m: int|
        0 <= m < nodes.len() && #[trigger] nodes[m].depth == max_depth)
    &&& (visited.len() > 0 ==> exists|m: int|
        0 <= m < nodes.len() && #[trigger] nodes[m].page_number == root && nodes[m].depth == 0
            && nodes[m].parent is None)
    &&& total_cells == spec_sum_cell_counts(nodes)
}

/// Every child named by any node has been visited already or still
/// waits on the stack.
#[verifier::opaque]
pub open spec fn spec_children_pending(
    nodes: Seq<BTreeNodeV>,
    visited: Seq<u32>,
    stack: Seq<StackEntry>,
) -> bool {
    forall|m: int, c: int|
        0 <= m < nodes.len() && 0 <= c < nodes[m].children.len() ==> visited.contains(
            #[trigger] nodes[m].children[c],
        ) || exists|s: int| 0 <= s < stack.len() && (#[trigger] stack[s]).0 == nodes[m].children[c]
}

/// Every node's parent field names a real traversal edge: a
/// parentless node is the root at depth zero, and any other node's
/// parent is a node that lists it among its children, one depth step
/// up (the step saturates only at the largest `usize`).
#[verifier::opaque]
pub open spec fn spec_parent_edges(root: u32, nodes: Seq<BTreeNodeV>) -> bool {
    forall|m: int|
        0 <= m < nodes.len() ==> (((#[trigger] nodes[m]).parent is None ==> nodes[m].page_number
            == root && nodes[m].depth == 0) && (nodes[m].parent is Some ==> exists|k: int|
            0 <= k < nodes.len() && (#[trigger] nodes[k]).page_number == nodes[m].parent->Some_0
                && nodes[k].children.contains(nodes[m].page_number) && nodes[m].depth
                == spec_sat_add(nodes[k].depth as int, 1)))
}

/// Every pending stack entry records a valid edge: the seed entry is
/// the root at depth zero with no parent, and every other entry was
/// pushed by a node that lists its page among its children, one depth
/// step down from it.
#[verifier::opaque]
pub open spec fn spec_stack_edges(
    root: u32,
    nodes: Seq<BTreeNodeV>,
    stack: Seq<StackEntry>,
) -> bool {
    forall|s: int|
        0 <= s < stack.len() ==> ((((#[trigger] stack[s]).2) is None ==> stack[s] == (
            root,
            0usize,
            Option::<u32>::None,
        )) && (stack[s].2 is Some ==> exists|k: int|
            0 <= k < nodes.len() && (#[trigger] nodes[k]).page_number == stack[s].2->Some_0
                && nodes[k].children.contains(stack[s].0) && stack[s].1 == spec_sat_add(
                nodes[k].depth as int,
                1,
            )))
}

/// A store on which the build is owed success: the root and every
/// page are inside the store's range and parse, and every child
/// pointer of every page stays inside the range.
pub open spec fn spec_store_well_formed(store: PageStore, usable_size: int, root: u32) -> bool {
    &&& 1 <= root && root <= store.page_count
    &&& forall|n: u32|
        1 <= n <= store.page_count ==> (#[trigger] spec_store_page(store, n, usable_size)) is Some
    &&& forall|n: u32, c: int|
        1 <= n <= store.page_count && 0 <= c < spec_node_children(
            spec_store_page(store, n, usable_size)->Some_0,
        ).len() ==> 1 <= #[trigger] spec_node_children(
            spec_store_page(store, n, usable_size)->Some_0,
        )[c] && spec_node_children(spec_store_page(store, n, usable_size)->Some_0)[c]
            <= store.page_count
}

proof fn lemma_initial_state(
    store: PageStore,
    usable_size: int,
    root: u32,
    stack: Seq<StackEntry>,
)
    ensures
        spec_tree_state(
            store,
            usable_size,
            root,
            Seq::empty(),
            Seq::empty(),
            0,
            0,
        ),
        spec_children_pending(Seq::empty(), Seq::empty(), stack),
        spec_parent_edges(root, Seq::empty()),
        spec_stack_edges(root, Seq::empty(), seq![(root, 0usize, Option::<u32>::None)]),
{
    reveal(spec_tree_state);
    reveal(spec_children_pending);
    reveal(spec_parent_edges);
    reveal(spec_stack_edges);
}

proof fn lemma_dup_step(
    root: u32,
    nodes: Seq<BTreeNodeV>,
    visited: Seq<u32>,
    stack0: Seq<StackEntry>,
)
    requires
        spec_children_pending(nodes, visited, stack0),
        spec_stack_edges(root, nodes, stack0),
        stack0.len() > 0,
        visited.contains(stack0.last().0),
    ensures
        spec_children_pending(nodes, visited, stack0.drop_last()),
        spec_stack_edges(root, nodes, stack0.drop_last()),
{
    reveal(spec_children_pending);
    reveal(spec_stack_edges);
    assert forall|s: int| 0 <= s < stack0.drop_last().len() implies ((((
    #[trigger] stack0.drop_last()[s]).2) is None ==> stack0.drop_last()[s] == (
        root,
        0usize,
        Option::<u32>::None,
    )) && (stack0.drop_last()[s].2 is Some ==> exists|k: int|
        0 <= k < nodes.len() && (#[trigger] nodes[k]).page_number == stack0.drop_last()[s].2->Some_0
            && nodes[k].children.contains(stack0.drop_last()[s].0) && stack0.drop_last()[s].1
            == spec_sat_add(nodes[k].depth as int, 1))) by {
        assert(stack0.drop_last()[s] == stack0[s]);
    }
    let stack = stack0.drop_last();
    assert forall|m: int, c: int|
        0 <= m < nodes.len() && 0 <= c < nodes[m].children.len() implies visited.contains(
        #[trigger] nodes[m].children[c]) || exists|s: int|
        0 <= s < stack.len() && (#[trigger] stack[s]).0 == nodes[m].children[c] by {
        if !visited.contains(nodes[m].children[c]) {
            let s0 = choose|s: int|
                0 <= s < stack0.len() && (#[trigger] stack0[s]).0 == nodes[m].children[c];
            if s0 < stack0.len() - 1 {
                assert(stack[s0].0 == nodes[m].children[c]);
            }
        }
    }
}

proof fn lemma_visit_sorted(nodes0: Seq<BTreeNodeV>, visited0: Seq<u32>, nv: BTreeNodeV, pos: int)
    requires
        0 <= pos <= nodes0.len(),
        forall|i: int, j: int|
            0 <= i < j < nodes0.len() ==> #[trigger] nodes0[i].page_number
                < #[trigger] nodes0[j].page_number,
        forall|m: int| 0 <= m < nodes0.len() ==> visited0.contains(
            #[trigger] nodes0[m].page_number,
        ),
        !visited0.contains(nv.page_number),
        forall|i: int| 0 <= i < pos ==> #[trigger] nodes0[i].page_number < nv.page_number,
        pos < nodes0.len() ==> nodes0[pos].page_number >= nv.page_number,
    ensures
        forall|i: int, j: int|
            0 <= i < j < nodes0.insert(pos, nv).len() ==> (#[trigger] nodes0.insert(
                pos,
                nv,
            )[i]).page_number < (#[trigger] nodes0.insert(pos, nv)[j]).page_number,
{
    let nd = nodes0.insert(pos, nv);
    nodes0.insert_ensures(pos, nv);
    assert forall|i: int, j: int|
        0 <= i < j < nd.len() implies (#[trigger] nd[i]).page_number
        < (#[trigger] nd[j]).page_number by {
        if i == pos && j > pos {
            assert(nd[j].page_number == nodes0[j - 1].page_number);
            if nodes0[j - 1].page_number == nv.page_number {
                assert(visited0.contains(nodes0[j - 1].page_number));
            }
            if j - 1 > pos {
                assert(nodes0[pos].page_number < nodes0[j - 1].page_number);
            }
        }
    }
}

proof fn lemma_visit_visited(nodes0: Seq<BTreeNodeV>, visited0: Seq<u32>, nv: BTreeNodeV, pos: int)
    requires
        0 <= pos <= nodes0.len(),
        forall|k: int|
            0 <= k < visited0.len() ==> exists|m: int|
                0 <= m < nodes0.len() && nodes0[m].page_number == #[trigger] visited0[k],
        forall|m: int| 0 <= m < nodes0.len() ==> visited0.contains(
            #[trigger] nodes0[m].page_number,
        ),
    ensures
        forall|k: int|
            0 <= k < visited0.push(nv.page_number).len() ==> exists|m: int|
                0 <= m < nodes0.insert(pos, nv).len() && nodes0.insert(pos, nv)[m].page_number
                    == #[trigger] visited0.push(nv.page_number)[k],
        forall|m: int|
            0 <= m < nodes0.insert(pos, nv).len() ==> visited0.push(nv.page_number).contains(
                (#[trigger] nodes0.insert(pos, nv)[m]).page_number,
            ),
{
    let nd = nodes0.insert(pos, nv);
    let visited = visited0.push(nv.page_number);
    nodes0.insert_ensures(pos, nv);
    assert forall|y: u32| visited0.contains(y) implies visited.contains(y) by {
        let k = choose|k: int| 0 <= k < visited0.len() && visited0[k] == y;
        assert(visited[k] == y);
    }
    assert(visited[visited0.len() as int] == nv.page_number);
    assert(visited.contains(nv.page_number));
    assert forall|k: int|
        0 <= k < visited.len() implies exists|m: int|
            0 <= m < nd.len() && nd[m].page_number == #[trigger] visited[k] by {
        if k < visited0.len() {
            let m0 = choose|m: int| 0 <= m < nodes0.len() && nodes0[m].page_number == visited0[k];
            if m0 < pos {
                assert(nd[m0].page_number == visited[k]);
            } else {
                assert(nd[m0 + 1].page_number == visited[k]);
            }
        } else {
            assert(nd[pos].page_number == visited[k]);
        }
    }
    assert forall|m: int| 0 <= m < nd.len() implies visited.contains(
        (#[trigger] nd[m]).page_number,
    ) by {
        if m != pos {
            let m0 = if m < pos {
                m
            } else {
                m - 1
            };
            assert(nd[m] == nodes0[m0]);
        }
    }
}

proof fn lemma_visit_closure(
    nodes0: Seq<BTreeNodeV>,
    visited0: Seq<u32>,
    stack0: Seq<StackEntry>,
    nv: BTreeNodeV,
    pos: int,
    child_depth: usize,
    new_stack: Seq<StackEntry>,
)
    requires
        0 <= pos <= nodes0.len(),
        stack0.len() > 0,
        nv.page_number == stack0.last().0,
        forall|m: int, c: int|
            0 <= m < nodes0.len() && 0 <= c < nodes0[m].children.len() ==> visited0.contains(
                #[trigger] nodes0[m].children[c],
            ) || exists|s: int|
                0 <= s < stack0.len() && (#[trigger] stack0[s]).0 == nodes0[m].children[c],
        new_stack == stack0.drop_last() + Seq::new(
            nv.children.len(),
            |j: int| (nv.children[j], child_depth, Some(nv.page_number)),
        ),
    ensures
        forall|m: int, c: int|
            0 <= m < nodes0.insert(pos, nv).len() && 0 <= c < nodes0.insert(
                pos,
                nv,
            )[m].children.len() ==> visited0.push(nv.page_number).contains(
                #[trigger] nodes0.insert(pos, nv)[m].children[c],
            ) || exists|s: int|
                0 <= s < new_stack.len() && (#[trigger] new_stack[s]).0 == nodes0.insert(
                    pos,
                    nv,
                )[m].children[c],
{
    let nd = nodes0.insert(pos, nv);
    let visited = visited0.push(nv.page_number);
    nodes0.insert_ensures(pos, nv);
    assert forall|y: u32| visited0.contains(y) implies visited.contains(y) by {
        let k = choose|k: int| 0 <= k < visited0.len() && visited0[k] == y;
        assert(visited[k] == y);
    }
    assert(visited[visited0.len() as int] == nv.page_number);
    assert forall|m: int, c: int|
        0 <= m < nd.len() && 0 <= c < nd[m].children.len() implies visited.contains(
        #[trigger] nd[m].children[c]) || exists|s: int|
        0 <= s < new_stack.len() && (#[trigger] new_stack[s]).0 == nd[m].children[c] by {
        if m == pos {
            let s = stack0.len() - 1 + c;
            assert(new_stack[s].0 == nd[m].children[c]);
        } else {
            let m0 = if m < pos {
                m
            } else {
                m - 1
            };
            assert(nd[m] == nodes0[m0]);
            if !visited0.contains(nodes0[m0].children[c]) {
                let s0 = choose|s: int|
                    0 <= s < stack0.len() && (#[trigger] stack0[s]).0 == nodes0[m0].children[c];
                if s0 < stack0.len() - 1 {
                    assert(new_stack[s0].0 == nd[m].children[c]);
                } else {
                    assert(stack0[s0].0 == nv.page_number);
                }
            }
        }
    }
}

proof fn lemma_visit_depth_root(
    nodes0: Seq<BTreeNodeV>,
    visited0: Seq<u32>,
    root: u32,
    max0: usize,
    nv: BTreeNodeV,
    pos: int,
    new_max: usize,
)
    requires
        0 <= pos <= nodes0.len(),
        nodes0.len() == visited0.len(),
        forall|m: int| 0 <= m < nodes0.len() ==> #[trigger] nodes0[m].depth <= max0,
        nodes0.len() == 0 ==> max0 == 0,
        nodes0.len() > 0 ==> exists|m: int|
            0 <= m < nodes0.len() && #[trigger] nodes0[m].depth == max0,
        visited0.len() > 0 ==> exists|m: int|
            0 <= m < nodes0.len() && #[trigger] nodes0[m].page_number == root && nodes0[m].depth
                == 0 && nodes0[m].parent is None,
        visited0.len() == 0 ==> (nv.page_number == root && nv.depth == 0 && nv.parent is None),
        new_max == (if nv.depth > max0 {
            nv.depth
        } else {
            max0
        }),
    ensures
        forall|m: int| 0 <= m < nodes0.insert(pos, nv).len() ==> (#[trigger] nodes0.insert(
            pos,
            nv,
        )[m]).depth <= new_max,
        exists|m: int|
            0 <= m < nodes0.insert(pos, nv).len() && (#[trigger] nodes0.insert(
                pos,
                nv,
            )[m]).depth == new_max,
        exists|m: int|
            0 <= m < nodes0.insert(pos, nv).len() && (#[trigger] nodes0.insert(
                pos,
                nv,
            )[m]).page_number == root && nodes0.insert(pos, nv)[m].depth == 0 && nodes0.insert(
                pos,
                nv,
            )[m].parent is None,
{
    let nd = nodes0.insert(pos, nv);
    nodes0.insert_ensures(pos, nv);
    assert(nd[pos].depth == nv.depth);
    if nv.depth >= max0 {
        assert(nd[pos].depth == new_max);
    } else {
        let m0 = choose|m: int| 0 <= m < nodes0.len() && #[trigger] nodes0[m].depth == max0;
        if m0 < pos {
            assert(nd[m0].depth == new_max);
        } else {
            assert(nd[m0 + 1].depth == new_max);
        }
    }
    if visited0.len() == 0 {
        assert(nd[pos].page_number == root && nd[pos].depth == 0 && nd[pos].parent is None);
    } else {
        let m0 = choose|m: int|
            0 <= m < nodes0.len() && #[trigger] nodes0[m].page_number == root && nodes0[m].depth
                == 0 && nodes0[m].parent is None;
        if m0 < pos {
            assert(nd[m0].page_number == root && nd[m0].depth == 0 && nd[m0].parent is None);
        } else {
            assert(nd[m0 + 1].page_number == root && nd[m0 + 1].depth == 0 && nd[m0 + 1].parent
                is None);
        }
    }
}

#[verifier::rlimit(100)]
proof fn lemma_parent_edges_insert(
    root: u32,
    nodes0: Seq<BTreeNodeV>,
    stack0: Seq<StackEntry>,
    nv: BTreeNodeV,
    pos: int,
)
    requires
        spec_parent_edges(root, nodes0),
        spec_stack_edges(root, nodes0, stack0),
        stack0.len() > 0,
        nv.page_number == stack0.last().0,
        nv.depth == stack0.last().1,
        nv.parent == stack0.last().2,
        0 <= pos <= nodes0.len(),
    ensures
        spec_parent_edges(root, nodes0.insert(pos, nv)),
{
    reveal(spec_parent_edges);
    reveal(spec_stack_edges);
    let nd = nodes0.insert(pos, nv);
    nodes0.insert_ensures(pos, nv);

    assert forall|m: int| 0 <= m < nd.len() implies (((#[trigger] nd[m]).parent is None
        ==> nd[m].page_number == root && nd[m].depth == 0) && (nd[m].parent is Some ==> exists|
        k: int,
    |
        0 <= k < nd.len() && (#[trigger] nd[k]).page_number == nd[m].parent->Some_0
            && nd[k].children.contains(nd[m].page_number) && nd[m].depth == spec_sat_add(
            nd[k].depth as int,
            1,
        ))) by {
        if m == pos {
            if nv.parent is Some {
                let k0 = choose|k: int|
                    0 <= k < nodes0.len() && (#[trigger] nodes0[k]).page_number
                        == stack0.last().2->Some_0 && nodes0[k].children.contains(stack0.last().0)
                        && stack0.last().1 == spec_sat_add(nodes0[k].depth as int, 1);
                let k1 = if k0 < pos {
                    k0
                } else {
                    k0 + 1
                };
                assert(nd[k1] == nodes0[k0]);
            }
        } else {
            let m0 = if m < pos {
                m
            } else {
                m - 1
            };
            assert(nd[m] == nodes0[m0]);
            if nodes0[m0].parent is Some {
                let k0 = choose|k: int|
                    0 <= k < nodes0.len() && (#[trigger] nodes0[k]).page_number
                        == nodes0[m0].parent->Some_0 && nodes0[k].children.contains(
                        nodes0[m0].page_number,
                    ) && nodes0[m0].depth == spec_sat_add(nodes0[k].depth as int, 1);
                let k1 = if k0 < pos {
                    k0
                } else {
                    k0 + 1
                };
                assert(nd[k1] == nodes0[k0]);
            }
        }
    }
}

#[verifier::rlimit(100)]
proof fn lemma_stack_edges_insert(
    root: u32,
    nodes0: Seq<BTreeNodeV>,
    stack0: Seq<StackEntry>,
    nv: BTreeNodeV,
    pos: int,
    child_depth: usize,
    new_stack: Seq<StackEntry>,
)
    requires
        spec_stack_edges(root, nodes0, stack0),
        stack0.len() > 0,
        nv.page_number == stack0.last().0,
        nv.depth == stack0.last().1,
        0 <= pos <= nodes0.len(),
        child_depth as int == spec_sat_add(nv.depth as int, 1),
        new_stack == stack0.drop_last() + Seq::new(
            nv.children.len(),
            |j: int| (nv.children[j], child_depth, Some(nv.page_number)),
        ),
    ensures
        spec_stack_edges(root, nodes0.insert(pos, nv), new_stack),
{
    reveal(spec_stack_edges);
    let nd = nodes0.insert(pos, nv);
    nodes0.insert_ensures(pos, nv);

    assert forall|s: int| 0 <= s < new_stack.len() implies ((((#[trigger] new_stack[s]).2)
        is None ==> new_stack[s] == (root, 0usize, Option::<u32>::None)) && (new_stack[s].2
        is Some ==> exists|k: int|
        0 <= k < nd.len() && (#[trigger] nd[k]).page_number == new_stack[s].2->Some_0
            && nd[k].children.contains(new_stack[s].0) && new_stack[s].1 == spec_sat_add(
            nd[k].depth as int,
            1,
        ))) by {
        if s < stack0.len() - 1 {
            assert(new_stack[s] == stack0[s]);
            if stack0[s].2 is Some {
                let k0 = choose|k: int|
                    0 <= k < nodes0.len() && (#[trigger] nodes0[k]).page_number
                        == stack0[s].2->Some_0 && nodes0[k].children.contains(stack0[s].0)
                        && stack0[s].1 == spec_sat_add(nodes0[k].depth as int, 1);
                let k1 = if k0 < pos {
                    k0
                } else {
                    k0 + 1
                };
                assert(nd[k1] == nodes0[k0]);
            }
        } else {
            let c = s - (stack0.len() - 1);
            assert(new_stack[s] == (nv.children[c], child_depth, Some(nv.page_number)));
            assert(nd[pos] == nv);
            assert(nd[pos].children[c] == nv.children[c]);
            assert(nd[pos].children.contains(new_stack[s].0));
        }
    }
}

#[verifier::rlimit(100)]
proof fn lemma_visit_step(
    store: PageStore,
    usable_size: int,
    root: u32,
    nodes0: Seq<BTreeNodeV>,
    visited0: Seq<u32>,
    max0: usize,
    total0: usize,
    stack0: Seq<StackEntry>,
    nv: BTreeNodeV,
    pos: int,
    child_depth: usize,
    new_stack: Seq<StackEntry>,
    new_max: usize,
    new_total: usize,
)
    requires
        spec_tree_state(store, usable_size, root, nodes0, visited0, max0, total0),
        spec_children_pending(nodes0, visited0, stack0),
        stack0.len() > 0,
        !visited0.contains(stack0.last().0),
        visited0.len() == 0 ==> stack0.last() == (root, 0usize, Option::<u32>::None),
        spec_node_matches(store, usable_size, nv),
        nv.page_number == stack0.last().0,
        nv.depth == stack0.last().1,
        nv.parent == stack0.last().2,
        0 <= pos <= nodes0.len(),
        forall|i: int| 0 <= i < pos ==> #[trigger] nodes0[i].page_number < nv.page_number,
        pos < nodes0.len() ==> nodes0[pos].page_number >= nv.page_number,
        new_stack == stack0.drop_last() + Seq::new(
            nv.children.len(),
            |j: int| (nv.children[j], child_depth, Some(nv.page_number)),
        ),
        new_max == (if nv.depth > max0 {
            nv.depth
        } else {
            max0
        }),
        new_total as int == spec_sat_add(total0 as int, nv.cell_count as int),
    ensures
        spec_tree_state(
            store,
            usable_size,
            root,
            nodes0.insert(pos, nv),
            visited0.push(nv.page_number),
            new_max,
            new_total,
        ),
        spec_children_pending(
            nodes0.insert(pos, nv),
            visited0.push(nv.page_number),
            new_stack,
        ),
        visited0.push(nv.page_number).len() <= 0xffff_ffff,
{
    reveal(spec_tree_state);
    reveal(spec_children_pending);

    let page_num = nv.page_number;
    let nd = nodes0.insert(pos, nv);
    let visited = visited0.push(page_num);
    nodes0.insert_ensures(pos, nv);
    lemma_sum_insert(nodes0, pos, nv);
    lemma_sum_nonneg(nodes0);

    assert(spec_store_page(store, page_num, usable_size) is Some) by {
        reveal(spec_node_matches);
    }
    assert(1 <= page_num <= store.page_count) by {
        reveal(spec_node_matches);
    }
    assert(visited.no_duplicates());
    assert forall|k: int| 0 <= k < visited.len() implies 1 <= #[trigger] visited[k] && visited[k]
        <= store.page_count by {
        if k < visited0.len() {
            assert(visited[k] == visited0[k]);
        }
    }
    lemma_distinct_bounded_len(visited, 1, 0x1_0000_0000);

    lemma_visit_sorted(nodes0, visited0, nv, pos);
    lemma_visit_visited(nodes0, visited0, nv, pos);
    lemma_visit_closure(nodes0, visited0, stack0, nv, pos, child_depth, new_stack);
    lemma_visit_depth_root(nodes0, visited0, root, max0, nv, pos, new_max);

    assert forall|i: int| 0 <= i < nd.len() implies spec_node_matches(
        store,
        usable_size,
        #[trigger] nd[i],
    ) by {
        if i != pos {
            let m0 = if i < pos {
                i
            } else {
                i - 1
            };
            assert(nd[i] == nodes0[m0]);
        }
    }
}

/// Build a complete B-tree structure by traversing from the root
/// page.
///
/// Every fetched page becomes one node carrying the annotations its
/// parsed form yields; the children of every node are themselves
/// visited, each page at most once, so the walk terminates even on a
/// cyclic page graph; the nodes come back sorted by page number, and
/// each node's parent field records the traversal edge it was
/// reached by. Any page that cannot be fetched or parsed aborts the
/// walk with that error; success is owed on a well-formed store
/// (every page parses and every child pointer stays in range), and
/// in particular whenever the root page is a childless leaf.
#[verifier::rlimit(100)]
pub fn build_btree(
    name: String,
    root_page_num: u32,
    tree_type: BTreeType,
    store: &PageStore,
    usable_size: u32,
) -> (r: Result<BTree, SqliteVizError>)
    ensures
        r matches Ok(t) ==> {
            &&& t@.name == name@
            &&& t@.root_page == root_page_num
            &&& t@.tree_type == tree_type
            &&& 1 <= t@.nodes.len()
            &&& forall|i: int, j: int|
                0 <= i < j < t@.nodes.len() ==> #[trigger] t@.nodes[i].page_number
                    < #[trigger] t@.nodes[j].page_number
            &&& forall|i: int|
                0 <= i < t@.nodes.len() ==> spec_node_matches(
                    *store,
                    usable_size as int,
                    #[trigger] t@.nodes[i],
                )
            &&& forall|i: int, c: int|
                0 <= i < t@.nodes.len() && 0 <= c < t@.nodes[i].children.len() ==> exists|m: int|
                    0 <= m < t@.nodes.len() && t@.nodes[m].page_number
                        == #[trigger] t@.nodes[i].children[c]
            &&& forall|i: int| 0 <= i < t@.nodes.len() ==> #[trigger] t@.nodes[i].depth <= t@.depth
            &&& exists|i: int| 0 <= i < t@.nodes.len() && #[trigger] t@.nodes[i].depth == t@.depth
            &&& exists|i: int|
                0 <= i < t@.nodes.len() && #[trigger] t@.nodes[i].page_number == root_page_num
                    && t@.nodes[i].depth == 0 && t@.nodes[i].parent is None
            &&& forall|i: int|
                0 <= i < t@.nodes.len() && (#[trigger] t@.nodes[i]).parent is None
                    ==> t@.nodes[i].page_number == root_page_num && t@.nodes[i].depth == 0
            &&& forall|i: int|
                0 <= i < t@.nodes.len() && (#[trigger] t@.nodes[i]).parent is Some ==> exists|
                    k: int,
                |
                    0 <= k < t@.nodes.len() && (#[trigger] t@.nodes[k]).page_number
                        == t@.nodes[i].parent->Some_0 && t@.nodes[k].children.contains(
                        t@.nodes[i].page_number,
                    ) && t@.nodes[i].depth == spec_sat_add(t@.nodes[k].depth as int, 1)
            &&& t@.total_cells == spec_sum_cell_counts(t@.nodes)
        },
        spec_store_page(*store, root_page_num, usable_size as int) is None ==> r is Err,
        spec_store_well_formed(*store, usable_size as int, root_page_num) ==> r is Ok,
        (spec_store_page(*store, root_page_num, usable_size as int) matches Some(pv)
            && spec_node_children(pv).len() == 0) ==> r is Ok,
        r matches Err(e) ==> (e matches SqliteVizError::PageOutOfBounds { .. } || e matches
            SqliteVizError::UnexpectedEof { .. } || e matches SqliteVizError::InvalidPageType(_)),
{
    let ghost root_ready = spec_store_page(*store, root_page_num, usable_size as int);

    let mut nodes: Vec<BTreeNode> = Vec::new();
    let mut visited: Vec<u32> = Vec::new();
    let mut max_depth: usize = 0;
    let mut total_cells: usize = 0;

    let mut stack: Vec<StackEntry> = Vec::new();
    stack.push((root_page_num, 0, None));

    proof {
        assert(stack@ =~= seq![(root_page_num, 0usize, Option::<u32>::None)]);
        assert(nodes.deep_view() =~= Seq::<BTreeNodeV>::empty());
        assert(visited@ =~= Seq::<u32>::empty());
        lemma_initial_state(*store, usable_size as int, root_page_num, stack@);
    }

    while stack.len() > 0
        invariant
            spec_tree_state(
                *store,
                usable_size as int,
                root_page_num,
                nodes.deep_view(),
                visited@,
                max_depth,
                total_cells,
            ),
            spec_children_pending(nodes.deep_view(), visited@, stack@),
            spec_parent_edges(root_page_num, nodes.deep_view()),
            spec_stack_edges(root_page_num, nodes.deep_view(), stack@),
            spec_store_well_formed(*store, usable_size as int, root_page_num) ==> forall|s: int|
                0 <= s < stack@.len() ==> 1 <= (#[trigger] stack@[s]).0 && stack@[s].0
                    <= store.page_count,
            nodes.deep_view().len() == visited@.len(),
            visited@.len() <= 0xffff_ffff,
            stack@.len() == 0 ==> visited@.len() >= 1,
            visited@.len() == 0 ==> stack@ =~= seq![(root_page_num, 0usize, Option::<u32>::None)],
            root_ready == spec_store_page(*store, root_page_num, usable_size as int),
            (root_ready matches Some(pv) && spec_node_children(pv).len() == 0) ==> ((stack@
                =~= seq![(root_page_num, 0usize, Option::<u32>::None)] && visited@.len() == 0)
                || stack@.len() == 0),
        decreases 0x1_0000_0000 - visited@.len(), stack@.len(),
    {
        let ghost stack0 = stack@;
        let ghost visited0 = visited@;
        let ghost nodes0 = nodes.deep_view();
        let ghost max0 = max_depth;
        let ghost total0 = total_cells;

        let (page_num, depth, parent) = match stack.pop() {
            Some(e) => e,
            None => {
                proof {
                    assert(false);
                }
                (0, 0, None)
            },
        };
        proof {
            assert(stack@ =~= stack0.drop_last());
            assert((page_num, depth, parent) == stack0.last());
        }

        if !vec_contains(&visited, page_num) {
            let page_bytes = match store.read_page_raw(page_num) {
                Ok(b) => b,
                Err(e) => {
                    proof {
                        if spec_store_well_formed(*store, usable_size as int, root_page_num) {
                            assert(1 <= stack0.last().0 && stack0.last().0 <= store.page_count);
                            assert(spec_store_page(*store, page_num, usable_size as int) is Some);
                            assert(false);
                        }
                    }
                    return Err(e);
                },
            };
            let page = match parse_page(
                page_bytes.as_slice(),
                page_num,
                store.page_size,
                usable_size,
            ) {
                Ok(p) => p,
                Err(e) => {
                    proof {
                        if spec_store_well_formed(*store, usable_size as int, root_page_num) {
                            assert(1 <= stack0.last().0 && stack0.last().0 <= store.page_count);
                            assert(spec_store_page(*store, page_num, usable_size as int) is Some);
                            assert(false);
                        }
                    }
                    return Err(e);
                },
            };
            proof {
                assert(spec_store_page(*store, page_num, usable_size as int) == Some(page@));
            }

            if depth > max_depth {
                max_depth = depth;
            }
            total_cells = usize_sat_add(total_cells, page.cells.len());

            let children = node_children(&page);
            let overflow_chains = overflow_stubs(&page.cells);

            let header_size: usize = if page.page_type.is_interior() {
                12
            } else {
                8
            };
            let page1_offset: usize = if page_num == 1 {
                100
            } else {
                0
            };
            let cell_pointers_size: usize = if page.cells.len() > usize::MAX / 2 {
                usize::MAX
            } else {
                page.cells.len() * 2
            };
            let cells_size = cells_total_size(&page.cells);
            let size_used = usize_sat_add(
                usize_sat_add(page1_offset + header_size, cell_pointers_size),
                cells_size,
            );
            let size_free = page.free_space;

            let child_depth = usize_sat_add(depth, 1);
            let mut k: usize = 0;
            let ghost stack_after_pop = stack@;
            while k < children.len()
                invariant
                    k <= children@.len(),
                    stack@ =~= stack_after_pop + Seq::new(
                        k as nat,
                        |j: int| (children@[j], child_depth, Some(page_num)),
                    ),
                decreases children@.len() - k,
            {
                stack.push((children[k], child_depth, Some(page_num)));
                k = k + 1;
            }

            let cell_count = page.cells.len();
            let node = BTreeNode {
                page_number: page_num,
                page_type: page.page_type,
                depth,
                cell_count,
                children,
                overflow_chains,
                size_used,
                size_free,
                parent,
            };
            let ghost nv = node@;
            proof {
                assert(spec_node_matches(*store, usable_size as int, nv)) by {
                    reveal(spec_node_matches);
                }
            }

            let pos;
            proof {
                assert forall|i: int, j: int|
                    0 <= i < j < nodes0.len() implies #[trigger] nodes0[i].page_number
                    < #[trigger] nodes0[j].page_number by {
                    reveal(spec_tree_state);
                }
            }
            pos = sorted_insert_pos(&nodes, page_num);
            visited.push(page_num);
            nodes.insert(pos, node);
            proof {
                assert(visited@ =~= visited0.push(page_num));
                assert(nodes.deep_view() =~= nodes0.insert(pos as int, nv));
                lemma_visit_step(
                    *store,
                    usable_size as int,
                    root_page_num,
                    nodes0,
                    visited0,
                    max0,
                    total0,
                    stack0,
                    nv,
                    pos as int,
                    child_depth,
                    stack@,
                    max_depth,
                    total_cells,
                );
                lemma_parent_edges_insert(root_page_num, nodes0, stack0, nv, pos as int);
                lemma_stack_edges_insert(
                    root_page_num,
                    nodes0,
                    stack0,
                    nv,
                    pos as int,
                    child_depth,
                    stack@,
                );
                if spec_store_well_formed(*store, usable_size as int, root_page_num) {
                    assert forall|s: int| 0 <= s < stack@.len() implies 1 <= (
                    #[trigger] stack@[s]).0 && stack@[s].0 <= store.page_count by {
                        if s >= stack0.len() - 1 {
                            let c = s - (stack0.len() - 1);
                            assert(stack@[s].0 == nv.children[c]);
                            assert(nv.children == spec_node_children(page@));
                            assert(1 <= page_num && page_num <= store.page_count);
                            assert(spec_store_page(*store, page_num, usable_size as int)->Some_0
                                == page@);
                        } else {
                            assert(stack@[s] == stack0[s]);
                        }
                    }
                }
            }
        } else {
            proof {
                lemma_dup_step(root_page_num, nodes0, visited0, stack0);
            }
        }
    }

    let tree = BTree {
        name,
        root_page: root_page_num,
        tree_type,
        nodes,
        depth: max_depth,
        total_cells,
    };
    proof {
        assert(tree@.nodes =~= tree.nodes.deep_view());
        reveal(spec_tree_state);
        reveal(spec_children_pending);
        assert forall|i: int, c: int|
            0 <= i < tree@.nodes.len() && 0 <= c < tree@.nodes[i].children.len() implies exists|
            m: int,
        |
            0 <= m < tree@.nodes.len() && tree@.nodes[m].page_number
                == #[trigger] tree@.nodes[i].children[c] by {
            assert(visited@.contains(tree@.nodes[i].children[c]));
            let k = choose|k: int|
                0 <= k < visited@.len() && visited@[k] == tree@.nodes[i].children[c];
        }
        let m = choose|m: int|
            0 <= m < tree@.nodes.len() && #[trigger] tree@.nodes[m].page_number == root_page_num
                && tree@.nodes[m].depth == 0 && tree@.nodes[m].parent is None;
        assert(spec_node_matches(*store, usable_size as int, tree@.nodes[m]));
        assert(spec_store_page(*store, root_page_num, usable_size as int) is Some) by {
            reveal(spec_node_matches);
        }
        reveal(spec_parent_edges);
    }
    Ok(tree)
}


/// Copy a vector of page numbers.
fn copy_u32_vec(v: &Vec<u32>) -> (r: Vec<u32>)
    ensures
        r@ == v@,
{
    let mut out: Vec<u32> = Vec::new();
    let mut i: usize = 0;
    while i < v.len()
        invariant
            i <= v@.len(),
            out@ == v@.take(i as int),
        decreases v@.len() - i,
    {
        out.push(v[i]);
        proof {
            assert(out@ =~= v@.take(i as int + 1));
        }
        i = i + 1;
    }
    proof {
        assert(v@.take(v@.len() as int) =~= v@);
    }
    out
}

/// What one stub chain becomes once its chain is walked: an empty
/// stub is kept as it is; otherwise the stub's single page is
/// replaced by the page numbers of the full walk from it, the byte
/// total staying as announced. `None` when the walk fails.
pub open spec fn spec_expanded_chain(
    store: PageStore,
    usable_size: u32,
    chain: OverflowChainV,
) -> Option<OverflowChainV> {
    if chain.pages.len() == 0 {
        Some(chain)
    } else {
        match spec_follow_chain(store, chain.pages[0], chain.total_bytes as int, usable_size) {
            None => None,
            Some((pages, _total)) => Some(
                OverflowChainV {
                    cell_index: chain.cell_index,
                    pages: pages.map_values(
                        |p: crate::model::page::OverflowPage| p.page_number,
                    ),
                    total_bytes: chain.total_bytes,
                },
            ),
        }
    }
}

/// Whether `new_n` is `old_n` with every overflow-chain stub walked.
pub open spec fn spec_node_expanded(
    store: PageStore,
    usable_size: u32,
    old_n: BTreeNodeV,
    new_n: BTreeNodeV,
) -> bool {
    &&& new_n.page_number == old_n.page_number
    &&& new_n.page_type == old_n.page_type
    &&& new_n.depth == old_n.depth
    &&& new_n.cell_count == old_n.cell_count
    &&& new_n.children == old_n.children
    &&& new_n.size_used == old_n.size_used
    &&& new_n.size_free == old_n.size_free
    &&& new_n.parent == old_n.parent
    &&& new_n.overflow_chains.len() == old_n.overflow_chains.len()
    &&& forall|j: int|
        0 <= j < old_n.overflow_chains.len() ==> Some(#[trigger] new_n.overflow_chains[j])
            == spec_expanded_chain(store, usable_size, old_n.overflow_chains[j])
}

/// Expand every overflow-chain stub of a built tree into the full
/// chain, walking the linked overflow pages through the store.
///
/// On failure the tree is left untouched; on success every chain
/// holds its walked page numbers.
pub fn expand_overflow_chains(btree: &mut BTree, store: &PageStore, usable_size: u32) -> (r: Result<
    (),
    SqliteVizError,
>)
    requires
        usable_size >= 4,
    ensures
        final(btree).name == old(btree).name,
        final(btree).root_page == old(btree).root_page,
        final(btree).tree_type == old(btree).tree_type,
        final(btree).depth == old(btree).depth,
        final(btree).total_cells == old(btree).total_cells,
        r matches Ok(_) ==> {
            &&& final(btree)@.nodes.len() == old(btree)@.nodes.len()
            &&& forall|i: int|
                0 <= i < old(btree)@.nodes.len() ==> spec_node_expanded(
                    *store,
                    usable_size,
                    old(btree)@.nodes[i],
                    #[trigger] final(btree)@.nodes[i],
                )
        },
        r matches Err(e) ==> {
            &&& *final(btree) == *old(btree)
            &&& (e matches SqliteVizError::PageOutOfBounds { .. } || e matches
                SqliteVizError::UnexpectedEof { .. })
        },
        (forall|i: int, j: int|
            0 <= i < old(btree)@.nodes.len() && 0 <= j
                < old(btree)@.nodes[i].overflow_chains.len() ==> spec_expanded_chain(
                *store,
                usable_size,
                #[trigger] old(btree)@.nodes[i].overflow_chains[j],
            ) is Some) ==> r is Ok,
{
    let mut new_nodes: Vec<BTreeNode> = Vec::new();
    let mut i: usize = 0;
    while i < btree.nodes.len()
        invariant
            usable_size >= 4,
            *btree == *old(btree),
            i <= btree.nodes@.len(),
            btree@.nodes.len() == btree.nodes@.len(),
            new_nodes.deep_view().len() == i,
            forall|k: int|
                0 <= k < i ==> spec_node_expanded(
                    *store,
                    usable_size,
                    btree@.nodes[k],
                    #[trigger] new_nodes.deep_view()[k],
                ),
        decreases btree.nodes@.len() - i,
    {
        let node = &btree.nodes[i];
        let ghost old_nv = node.deep_view();
        proof {
            assert(old_nv == old(btree)@.nodes[i as int]);
        }
        let mut new_chains: Vec<OverflowChain> = Vec::new();
        let mut j: usize = 0;
        while j < node.overflow_chains.len()
            invariant
                usable_size >= 4,
                j <= node.overflow_chains@.len(),
                old_nv == node.deep_view(),
                old_nv.overflow_chains.len() == node.overflow_chains@.len(),
                (i as int) < old(btree)@.nodes.len(),
                old_nv == old(btree)@.nodes[i as int],
                new_chains.deep_view().len() == j,
                forall|k: int|
                    0 <= k < j ==> Some(#[trigger] new_chains.deep_view()[k])
                        == spec_expanded_chain(*store, usable_size, old_nv.overflow_chains[k]),
            decreases node.overflow_chains@.len() - j,
        {
            let chain = &node.overflow_chains[j];
            let ghost prev_chains = new_chains.deep_view();
            if chain.pages.len() == 0 {
                let copied = OverflowChain {
                    cell_index: chain.cell_index,
                    pages: copy_u32_vec(&chain.pages),
                    total_bytes: chain.total_bytes,
                };
                let ghost cv = copied@;
                new_chains.push(copied);
                proof {
                    assert(cv.pages =~= old_nv.overflow_chains[j as int].pages);
                    assert(new_chains.deep_view() =~= prev_chains + seq![cv]);
                }
            } else {
                let first_page = chain.pages[0];
                let info = match follow_overflow_chain(
                    first_page,
                    usable_size,
                    chain.total_bytes,
                    store,
                ) {
                    Ok(info) => info,
                    Err(e) => {
                        proof {
                            let cv = chain.deep_view();
                            assert(cv == old_nv.overflow_chains[j as int]);
                            assert(cv.pages.len() > 0);
                            assert(cv.pages[0] == first_page);
                            assert(cv.total_bytes == chain.total_bytes);
                            assert(spec_follow_chain(
                                *store,
                                first_page,
                                chain.total_bytes as int,
                                usable_size,
                            ) is None);
                            assert(spec_expanded_chain(*store, usable_size, cv) is None);
                            assert((i as int) < old(btree)@.nodes.len());
                            assert((j as int) < old(btree)@.nodes[i as int].overflow_chains.len());
                            assert(spec_expanded_chain(
                                *store,
                                usable_size,
                                old(btree)@.nodes[i as int].overflow_chains[j as int],
                            ) is None);
                        }
                        return Err(e);
                    },
                };
                let mut pages: Vec<u32> = Vec::new();
                let mut p: usize = 0;
                while p < info.pages.len()
                    invariant
                        p <= info.pages@.len(),
                        pages@ =~= info.pages@.take(p as int).map_values(
                            |q: crate::model::page::OverflowPage| q.page_number,
                        ),
                    decreases info.pages@.len() - p,
                {
                    pages.push(info.pages[p].page_number);
                    proof {
                        assert(info.pages@.take(p as int + 1) =~= info.pages@.take(p as int).push(
                            info.pages@[p as int],
                        ));
                        assert(pages@ =~= info.pages@.take(p as int + 1).map_values(
                            |q: crate::model::page::OverflowPage| q.page_number,
                        ));
                    }
                    p = p + 1;
                }
                proof {
                    assert(info.pages@.take(info.pages@.len() as int) =~= info.pages@);
                }
                let expanded = OverflowChain {
                    cell_index: chain.cell_index,
                    pages,
                    total_bytes: chain.total_bytes,
                };
                let ghost cv = expanded@;
                new_chains.push(expanded);
                proof {
                    assert(new_chains.deep_view() =~= prev_chains + seq![cv]);
                }
            }
            j = j + 1;
        }
        let new_node = BTreeNode {
            page_number: node.page_number,
            page_type: node.page_type,
            depth: node.depth,
            cell_count: node.cell_count,
            children: copy_u32_vec(&node.children),
            overflow_chains: new_chains,
            size_used: node.size_used,
            size_free: node.size_free,
            parent: node.parent,
        };
        let ghost prev_nodes = new_nodes.deep_view();
        let ghost nnv = new_node.deep_view();
        new_nodes.push(new_node);
        proof {
            assert(new_nodes.deep_view() =~= prev_nodes + seq![nnv]);
        }
        i = i + 1;
    }
    btree.nodes = new_nodes;
    Ok(())
}

/// Aggregate statistics of a B-tree's nodes.
#[derive(Debug, Clone, Copy, PartialEq, Eq, Structural)]
pub struct BTreeStats {
    pub total_pages: usize,
    pub interior_pages: usize,
    pub leaf_pages: usize,
    pub total_cells: usize,
    pub overflow_pages: usize,
    pub depth: usize,
    pub total_size_used: usize,
    pub total_size_free: usize,
}

/// The number of interior pages among the nodes from index `i` on.
pub open spec fn spec_interior_count(nodes: Seq<BTreeNodeV>, i: int) -> int
    decreases nodes.len() - i,
{
    if i < 0 || i >= nodes.len() {
        0
    } else {
        (if spec_is_interior(nodes[i].page_type) {
            1int
        } else {
            0int
        }) + spec_interior_count(nodes, i + 1)
    }
}

/// The number of leaf pages among the nodes from index `i` on.
pub open spec fn spec_leaf_count(nodes: Seq<BTreeNodeV>, i: int) -> int
    decreases nodes.len() - i,
{
    if i < 0 || i >= nodes.len() {
        0
    } else {
        (if spec_is_leaf(nodes[i].page_type) {
            1int
        } else {
            0int
        }) + spec_leaf_count(nodes, i + 1)
    }
}

/// The total page count over the chains from index `j` on,
/// saturating.
pub open spec fn spec_chain_pages_count(chains: Seq<OverflowChainV>, j: int) -> int
    decreases chains.len() - j,
{
    if j < 0 || j >= chains.len() {
        0
    } else {
        spec_sat_add(chains[j].pages.len() as int, spec_chain_pages_count(chains, j + 1))
    }
}

/// The total overflow page count over the nodes from index `i` on,
/// saturating.
pub open spec fn spec_overflow_count(nodes: Seq<BTreeNodeV>, i: int) -> int
    decreases nodes.len() - i,
{
    if i < 0 || i >= nodes.len() {
        0
    } else {
        spec_sat_add(
            spec_chain_pages_count(nodes[i].overflow_chains, 0),
            spec_overflow_count(nodes, i + 1),
        )
    }
}

/// The total used bytes over the nodes from index `i` on, saturating.
pub open spec fn spec_used_sum(nodes: Seq<BTreeNodeV>, i: int) -> int
    decreases nodes.len() - i,
{
    if i < 0 || i >= nodes.len() {
        0
    } else {
        spec_sat_add(nodes[i].size_used as int, spec_used_sum(nodes, i + 1))
    }
}

/// The total free bytes over the nodes from index `i` on, saturating.
pub open spec fn spec_free_sum(nodes: Seq<BTreeNodeV>, i: int) -> int
    decreases nodes.len() - i,
{
    if i < 0 || i >= nodes.len() {
        0
    } else {
        spec_sat_add(nodes[i].size_free as int, spec_free_sum(nodes, i + 1))
    }
}

fn chain_pages_count(chains: &Vec<OverflowChain>) -> (r: usize)
    ensures
        r == spec_chain_pages_count(chains.deep_view(), 0),
{
    let ghost chains_v = chains.deep_view();
    let mut j: usize = chains.len();
    let mut total: usize = 0;
    while j > 0
        invariant
            j <= chains@.len(),
            chains_v == chains.deep_view(),
            chains_v.len() == chains@.len(),
            total == spec_chain_pages_count(chains_v, j as int),
        decreases j,
    {
        j = j - 1;
        total = usize_sat_add(chains[j].pages.len(), total);
    }
    total
}

impl BTree {
    /// Aggregate statistics: page counts by kind, overflow page
    /// totals and byte totals (the sums saturate at the largest
    /// `usize`), with the tree's own depth and cell count carried
    /// over.
    pub fn stats(&self) -> (r: BTreeStats)
        ensures
            r.total_pages == self@.nodes.len(),
            r.interior_pages == spec_interior_count(self@.nodes, 0),
            r.leaf_pages == spec_leaf_count(self@.nodes, 0),
            r.total_cells == self@.total_cells,
            r.overflow_pages == spec_overflow_count(self@.nodes, 0),
            r.depth == self@.depth,
            r.total_size_used == spec_used_sum(self@.nodes, 0),
            r.total_size_free == spec_free_sum(self@.nodes, 0),
    {
        let ghost nodes_v = self.nodes.deep_view();
        let mut interior_pages: usize = 0;
        let mut leaf_pages: usize = 0;
        let mut overflow_pages: usize = 0;
        let mut total_size_used: usize = 0;
        let mut total_size_free: usize = 0;
        let mut i: usize = self.nodes.len();
        while i > 0
            invariant
                i <= self.nodes@.len(),
                self.nodes@.len() <= usize::MAX,
                nodes_v == self.nodes.deep_view(),
                nodes_v.len() == self.nodes@.len(),
                interior_pages as int == spec_interior_count(nodes_v, i as int),
                leaf_pages as int == spec_leaf_count(nodes_v, i as int),
                overflow_pages as int == spec_overflow_count(nodes_v, i as int),
                total_size_used as int == spec_used_sum(nodes_v, i as int),
                total_size_free as int == spec_free_sum(nodes_v, i as int),
                interior_pages + leaf_pages <= 2 * (nodes_v.len() - i),
            decreases i,
        {
            i = i - 1;
            let node = &self.nodes[i];
            proof {
                lemma_count_bounds(nodes_v, i as int);
                lemma_count_bounds(nodes_v, i as int + 1);
            }
            if node.page_type.is_interior() {
                interior_pages = interior_pages + 1;
            }
            if node.page_type.is_leaf() {
                leaf_pages = leaf_pages + 1;
            }
            overflow_pages = usize_sat_add(chain_pages_count(&node.overflow_chains), overflow_pages);
            total_size_used = usize_sat_add(node.size_used, total_size_used);
            total_size_free = usize_sat_add(node.size_free, total_size_free);
        }
        BTreeStats {
            total_pages: self.nodes.len(),
            interior_pages,
            leaf_pages,
            total_cells: self.total_cells,
            overflow_pages,
            depth: self.depth,
            total_size_used,
            total_size_free,
        }
    }
}

proof fn lemma_count_bounds(nodes: Seq<BTreeNodeV>, i: int)
    ensures
        0 <= spec_interior_count(nodes, i) <= (if nodes.len() - i >= 0 {
            nodes.len() - i
        } else {
            0int
        }),
        0 <= spec_leaf_count(nodes, i) <= (if nodes.len() - i >= 0 {
            nodes.len() - i
        } else {
            0int
        }),
    decreases nodes.len() - i,
{
    if 0 <= i < nodes.len() {
        lemma_count_bounds(nodes, i + 1);
    }
}


} // verus!
