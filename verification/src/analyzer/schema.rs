use crate::error::SqliteVizError;
use crate::model::cell::{Cell, CellV, Record, RecordV, Value, ValueV};
use crate::model::page::{Page, PageType, PageV};
use crate::model::schema::{ObjectType, Schema, SchemaEntry, SchemaEntryV, spec_object_type_of};
use crate::parser::page::{parse_page, spec_parse_page};
use crate::PageStore;
use vstd::prelude::*;

verus! {

/// The hard cap on the number of catalog pages one extraction will
/// fetch: a defensive bound that guarantees termination on corrupted
/// or cyclic catalogs, not a rule of the file format.
pub const SCHEMA_PAGE_CAP: usize = 100000;

/// The schema entry that a catalog record yields, if any. A record
/// qualifies when it has at least five columns: a text object type
/// naming one of the four kinds, text name and table name, an integer
/// root page (null reads as zero, for views and triggers), and text
/// or null SQL. Anything else is dropped.
pub open spec fn spec_schema_entry_of(r: RecordV) -> Option<SchemaEntryV> {
    if r.values.len() < 5 {
        None
    } else {
        match r.values[0] {
            ValueV::Text(type_text) => match spec_object_type_of(type_text) {
                Some(object_type) => match r.values[1] {
                    ValueV::Text(name) => match r.values[2] {
                        ValueV::Text(table_name) => {
                            let root_page: Option<u32> = match r.values[3] {
                                ValueV::Integer(i) => Some(i as u32),
                                ValueV::Null => Some(0),
                                _ => None,
                            };
                            match root_page {
                                Some(root_page) => Some(
                                    SchemaEntryV {
                                        object_type,
                                        name,
                                        table_name,
                                        root_page,
                                        sql: match r.values[4] {
                                            ValueV::Text(s) => Some(s),
                                            _ => None,
                                        },
                                    },
                                ),
                                None => None,
                            }
                        },
                        _ => None,
                    },
                    _ => None,
                },
                None => None,
            },
            _ => None,
        }
    }
}

/// Extract one catalog entry from a record, dropping records that do
/// not carry the five expected columns with the expected types.
pub fn parse_schema_record(record: &Record) -> (r: Option<SchemaEntry>)
    ensures
        r is Some <==> spec_schema_entry_of(record@) is Some,
        r matches Some(e) ==> Some(e@) == spec_schema_entry_of(record@),
{
    if record.values.len() < 5 {
        return None;
    }

    let object_type = match &record.values[0] {
        Value::Text(s) => match ObjectType::from_str(s.as_str()) {
            Some(t) => t,
            None => {
                return None;
            },
        },
        _ => {
            return None;
        },
    };

    let name = match &record.values[1] {
        Value::Text(s) => s.clone(),
        _ => {
            return None;
        },
    };

    let table_name = match &record.values[2] {
        Value::Text(s) => s.clone(),
        _ => {
            return None;
        },
    };

    let root_page: u32 = match &record.values[3] {
        Value::Integer(i) => #[verifier::truncate] (*i as u32),
        Value::Null => 0,
        _ => {
            return None;
        },
    };

    let sql = match &record.values[4] {
        Value::Text(s) => Some(s.clone()),
        _ => None,
    };

    Some(SchemaEntry { object_type, name, table_name, root_page, sql })
}

/// The catalog entries held by the table-leaf cells of one page, in
/// cell order, dropping cells without a payload and records that do
/// not qualify.
pub open spec fn spec_leaf_schema_entries(cells: Seq<CellV>) -> Seq<SchemaEntryV>
    decreases cells.len(),
{
    if cells.len() == 0 {
        Seq::empty()
    } else {
        let rest = spec_leaf_schema_entries(cells.drop_first());
        match cells[0] {
            CellV::TableLeaf(c) => match c.payload {
                Some(rec) => match spec_schema_entry_of(rec) {
                    Some(e) => seq![e] + rest,
                    None => rest,
                },
                None => rest,
            },
            _ => rest,
        }
    }
}

/// The entries of one page's table-leaf cells.
fn leaf_entries(cells: &Vec<Cell>) -> (r: Vec<SchemaEntry>)
    ensures
        r.deep_view() == spec_leaf_schema_entries(cells.deep_view()),
{
    let ghost cells_v = cells.deep_view();
    let mut out: Vec<SchemaEntry> = Vec::new();
    let mut i: usize = 0;
    proof {
        assert(out.deep_view() =~= Seq::<SchemaEntryV>::empty());
        assert(cells_v.skip(0) =~= cells_v);
    }
    while i < cells.len()
        invariant
            i <= cells@.len(),
            cells_v == cells.deep_view(),
            cells_v.len() == cells@.len(),
            spec_leaf_schema_entries(cells_v) =~= out.deep_view() + spec_leaf_schema_entries(
                cells_v.skip(i as int),
            ),
        decreases cells@.len() - i,
    {
        proof {
            assert(cells_v.skip(i as int)[0] == cells_v[i as int]);
            assert(cells_v.skip(i as int).drop_first() =~= cells_v.skip(i as int + 1));
        }
        let ghost prev = out.deep_view();
        match &cells[i] {
            Cell::TableLeaf(leaf_cell) => {
                match &leaf_cell.payload {
                    Some(record) => {
                        match parse_schema_record(record) {
                            Some(entry) => {
                                let ghost ev = entry@;
                                out.push(entry);
                                proof {
                                    assert(out.deep_view() =~= prev + seq![ev]);
                                }
                            },
                            None => {},
                        }
                    },
                    None => {},
                }
            },
            _ => {},
        }
        i = i + 1;
    }
    proof {
        assert(cells_v.skip(cells_v.len() as int) =~= Seq::<CellV>::empty());
        assert(spec_leaf_schema_entries(cells_v) =~= out.deep_view());
    }
    out
}

/// Parse the schema catalog from page 1 alone.
///
/// The catalog is a table B-tree rooted at page 1: any other page
/// type is an error. A leaf root yields its records' entries; an
/// interior root yields no entries here (the multi-page walk is
/// [`collect_schema_entries`]).
pub fn parse_schema(page1: &Page) -> (r: Result<Schema, SqliteVizError>)
    ensures
        r is Err <==> (page1@.page_type != PageType::LeafTable && page1@.page_type
            != PageType::InteriorTable),
        r matches Err(e) ==> e matches SqliteVizError::SchemaError(_),
        page1@.page_type == PageType::LeafTable ==> (r matches Ok(s) && s@.entries
            == spec_leaf_schema_entries(page1@.cells)),
        page1@.page_type == PageType::InteriorTable ==> (r matches Ok(s) && s@.entries
            == Seq::<SchemaEntryV>::empty()),
{
    match page1.page_type {
        PageType::LeafTable => {
            let entries = leaf_entries(&page1.cells);
            Ok(Schema { entries })
        },
        PageType::InteriorTable => Ok(Schema::new()),
        _ => Err(SqliteVizError::SchemaError("Page 1 is not a table B-tree page")),
    }
}

/// The left-child page numbers of a page's table-interior cells, in
/// cell order.
pub open spec fn spec_interior_children(cells: Seq<CellV>) -> Seq<u32>
    decreases cells.len(),
{
    if cells.len() == 0 {
        Seq::empty()
    } else {
        let rest = spec_interior_children(cells.drop_first());
        match cells[0] {
            CellV::TableInterior(c) => seq![c.left_child_page] + rest,
            _ => rest,
        }
    }
}

/// The child pages of an interior catalog page: the cells' left
/// children, then the header's right-most pointer.
pub open spec fn spec_table_children(pv: PageV) -> Seq<u32> {
    let left = spec_interior_children(pv.cells);
    match pv.header {
        Some(h) => match h.right_most_pointer {
            Some(rp) => left + seq![rp],
            None => left,
        },
        None => left,
    }
}

/// The page of the store at `page_number`, parsed.
pub open spec fn spec_store_page(store: PageStore, page_number: u32, usable_size: int) -> Option<
    PageV,
> {
    match store.spec_page_bytes(page_number) {
        Some(bytes) => spec_parse_page(bytes, page_number, store.page_size, usable_size),
        None => None,
    }
}

/// One walk of the pending catalog pages, depth first and left to
/// right: a leaf page contributes its entries before the pages after
/// it, an interior page replaces itself by its children, any other
/// page type or a failed fetch ends the walk with nothing, and so
/// does running out of the page budget with pages still pending.
pub open spec fn spec_collect_entries(
    store: PageStore,
    usable_size: int,
    stack: Seq<u32>,
    budget: nat,
) -> Option<Seq<SchemaEntryV>>
    decreases budget,
{
    if stack.len() == 0 {
        Some(Seq::empty())
    } else if budget == 0 {
        None
    } else {
        let page_number = stack[0];
        match spec_store_page(store, page_number, usable_size) {
            None => None,
            Some(pv) => {
                if pv.page_type == PageType::LeafTable {
                    match spec_collect_entries(
                        store,
                        usable_size,
                        stack.drop_first(),
                        (budget - 1) as nat,
                    ) {
                        None => None,
                        Some(rest) => Some(spec_leaf_schema_entries(pv.cells) + rest),
                    }
                } else if pv.page_type == PageType::InteriorTable {
                    spec_collect_entries(
                        store,
                        usable_size,
                        spec_table_children(pv) + stack.drop_first(),
                        (budget - 1) as nat,
                    )
                } else {
                    None
                }
            },
        }
    }
}

/// The child page numbers of an interior table page, in traversal
/// order.
fn table_children(page: &Page) -> (r: Vec<u32>)
    ensures
        r@ == spec_table_children(page@),
{
    let ghost cells_v = page.cells.deep_view();
    let mut out: Vec<u32> = Vec::new();
    let mut i: usize = 0;
    proof {
        assert(out@ =~= Seq::<u32>::empty());
        assert(cells_v.skip(0) =~= cells_v);
    }
    while i < page.cells.len()
        invariant
            i <= page.cells@.len(),
            cells_v == page.cells.deep_view(),
            cells_v.len() == page.cells@.len(),
            spec_interior_children(cells_v) =~= out@ + spec_interior_children(
                cells_v.skip(i as int),
            ),
        decreases page.cells@.len() - i,
    {
        proof {
            assert(cells_v.skip(i as int)[0] == cells_v[i as int]);
            assert(cells_v.skip(i as int).drop_first() =~= cells_v.skip(i as int + 1));
        }
        match &page.cells[i] {
            Cell::TableInterior(c) => {
                out.push(c.left_child_page);
            },
            _ => {},
        }
        i = i + 1;
    }
    proof {
        assert(cells_v.skip(cells_v.len() as int) =~= Seq::<CellV>::empty());
        assert(spec_interior_children(cells_v) =~= out@);
    }
    match &page.header {
        Some(h) => {
            match h.right_most_pointer {
                Some(rp) => {
                    out.push(rp);
                },
                None => {},
            }
        },
        None => {},
    }
    out
}

/// Collect the catalog entries of a possibly multi-page catalog,
/// walking interior pages depth first and left to right from the
/// given root page.
///
/// A fetch or parse failure, a page of the wrong type, and a walk
/// that exceeds the page budget are all errors; the walk itself
/// always terminates.
pub fn collect_schema_entries(root_page: &Page, store: &PageStore, usable_size: u32) -> (r: Result<
    Vec<SchemaEntry>,
    SqliteVizError,
>)
    ensures
        root_page@.page_type == PageType::LeafTable ==> (r matches Ok(entries)
            && entries.deep_view() == spec_leaf_schema_entries(root_page@.cells)),
        root_page@.page_type == PageType::InteriorTable ==> {
            let walk = spec_collect_entries(
                *store,
                usable_size as int,
                spec_table_children(root_page@),
                SCHEMA_PAGE_CAP as nat,
            );
            match r {
                Ok(entries) => Some(entries.deep_view()) == walk,
                Err(_) => walk is None,
            }
        },
        root_page@.page_type != PageType::LeafTable && root_page@.page_type
            != PageType::InteriorTable ==> (r matches Err(e) && e matches
        SqliteVizError::SchemaError(_)),
{
    match root_page.page_type {
        PageType::LeafTable => {
            return Ok(leaf_entries(&root_page.cells));
        },
        PageType::InteriorTable => {},
        _ => {
            return Err(SqliteVizError::SchemaError("Unexpected page type in schema catalog"));
        },
    }

    let ghost goal = spec_collect_entries(
        *store,
        usable_size as int,
        spec_table_children(root_page@),
        SCHEMA_PAGE_CAP as nat,
    );

    let mut entries: Vec<SchemaEntry> = Vec::new();
    let mut stack: Vec<u32> = table_children(root_page);
    let mut budget: usize = SCHEMA_PAGE_CAP;

    proof {
        assert(entries.deep_view() =~= Seq::<SchemaEntryV>::empty());
    }
    while stack.len() > 0
        invariant
            root_page@.page_type == PageType::InteriorTable,
            goal == spec_collect_entries(
                *store,
                usable_size as int,
                spec_table_children(root_page@),
                SCHEMA_PAGE_CAP as nat,
            ),
            match spec_collect_entries(*store, usable_size as int, stack@, budget as nat) {
                Some(rest) => goal == Some(entries.deep_view() + rest),
                None => goal is None,
            },
        decreases budget,
    {
        let ghost stack0 = stack@;
        let ghost budget0 = budget as nat;

        if budget == 0 {
            return Err(SqliteVizError::SchemaError("schema catalog walk exceeded its page budget"));
        }
        let page_number = stack[0];
        let _ = stack.remove(0);
        proof {
            assert(stack@ =~= stack0.drop_first());
        }
        budget = budget - 1;

        let page_bytes = match store.read_page_raw(page_number) {
            Ok(b) => b,
            Err(e) => {
                proof {
                    assert(spec_collect_entries(*store, usable_size as int, stack0, budget0)
                        is None);
                }
                return Err(e);
            },
        };
        let page = match parse_page(
            page_bytes.as_slice(),
            page_number,
            store.page_size,
            usable_size,
        ) {
            Ok(p) => p,
            Err(e) => {
                proof {
                    assert(spec_collect_entries(*store, usable_size as int, stack0, budget0)
                        is None);
                }
                return Err(e);
            },
        };
        proof {
            assert(spec_store_page(*store, page_number, usable_size as int) == Some(page@));
        }

        if page.page_type == PageType::LeafTable {
            let mut page_entries = leaf_entries(&page.cells);
            let ghost prev = entries.deep_view();
            let ghost added = page_entries.deep_view();
            entries.append(&mut page_entries);
            proof {
                assert(entries.deep_view() =~= prev + added);
                match spec_collect_entries(*store, usable_size as int, stack@, budget as nat) {
                    Some(rest) => {
                        assert(spec_collect_entries(*store, usable_size as int, stack0, budget0)
                            == Some(added + rest));
                        assert(prev + (added + rest) =~= entries.deep_view() + rest);
                    },
                    None => {
                        assert(spec_collect_entries(*store, usable_size as int, stack0, budget0)
                            is None);
                    },
                }
            }
        } else if page.page_type == PageType::InteriorTable {
            let children = table_children(&page);
            let ghost tail = stack@;
            let mut j: usize = 0;
            proof {
                assert(stack@ =~= children@.take(0) + tail);
            }
            while j < children.len()
                invariant
                    j <= children@.len(),
                    j <= stack@.len(),
                    stack@ =~= children@.take(j as int) + tail,
                decreases children@.len() - j,
            {
                let c = children[j];
                let ghost before = stack@;
                stack.insert(j, c);
                proof {
                    assert(stack@ =~= children@.take(j as int + 1) + tail);
                }
                j = j + 1;
            }
            proof {
                assert(children@.take(children@.len() as int) =~= children@);
                assert(stack@ =~= spec_table_children(page@) + stack0.drop_first());
                assert(spec_collect_entries(*store, usable_size as int, stack0, budget0)
                    == spec_collect_entries(*store, usable_size as int, stack@, budget as nat));
            }
        } else {
            proof {
                assert(spec_collect_entries(*store, usable_size as int, stack0, budget0) is None);
            }
            return Err(SqliteVizError::SchemaError("Unexpected page type in schema catalog"));
        }
    }

    proof {
        assert(goal == Some(entries.deep_view()));
    }
    Ok(entries)
}

} // verus!
