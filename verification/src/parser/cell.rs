use crate::error::SqliteVizError;
use crate::model::cell::{Cell, CellV, IndexInteriorCell, IndexInteriorCellV, IndexLeafCell,
    IndexLeafCellV, TableInteriorCell, TableLeafCell, TableLeafCellV};
use crate::model::page::PageType;
use crate::parser::bytes::{read_be_u32, spec_be_uint};
use crate::parser::record::{parse_record, spec_parse_record};
use crate::parser::varint::{parse_signed_varint, parse_varint, spec_parse_varint, spec_signed_of,
    spec_varint_at};
use vstd::prelude::*;

verus! {

/// The largest payload that stays entirely local in a cell:
/// `U - 35` on table-leaf pages, `(U - 12) * 64 / 255 - 23` on every
/// other payload-bearing page, where `U` is the usable page size.
pub open spec fn spec_max_local(usable_size: int, is_table_leaf: bool) -> int {
    if is_table_leaf {
        usable_size - 35
    } else {
        (usable_size - 12) * 64 / 255 - 23
    }
}

/// The smallest number of payload bytes kept local once a payload
/// overflows: `(U - 12) * 32 / 255 - 23`.
pub open spec fn spec_min_local(usable_size: int) -> int {
    (usable_size - 12) * 32 / 255 - 23
}

/// The number of payload bytes stored inside the cell itself: the
/// whole payload when it fits under the maximum; otherwise
/// `minLocal + ((payload - minLocal) mod (U - 4))` when that stays
/// under the maximum, and `minLocal` when it does not.
pub open spec fn spec_local_payload_size(
    payload_size: int,
    usable_size: int,
    is_table_leaf: bool,
) -> int {
    let max_local = spec_max_local(usable_size, is_table_leaf);
    let min_local = spec_min_local(usable_size);
    if payload_size <= max_local {
        payload_size
    } else {
        let k = min_local + (payload_size - min_local) % (usable_size - 4);
        if k <= max_local {
            k
        } else {
            min_local
        }
    }
}

proof fn lemma_local_bounds(usable_size: int)
    requires
        480 <= usable_size <= 65536,
    ensures
        35 <= spec_min_local(usable_size),
        spec_min_local(usable_size) <= spec_max_local(usable_size, false),
        spec_min_local(usable_size) <= spec_max_local(usable_size, true),
        spec_max_local(usable_size, false) <= spec_max_local(usable_size, true),
        spec_max_local(usable_size, true) <= 65501,
{
    assert((usable_size - 12) * 32 / 255 >= 58) by (nonlinear_arith)
        requires
            480 <= usable_size,
    ;
    assert((usable_size - 12) * 32 <= (usable_size - 12) * 64) by (nonlinear_arith)
        requires
            480 <= usable_size,
    ;
    assert((usable_size - 12) * 32 / 255 <= (usable_size - 12) * 64 / 255) by (nonlinear_arith)
        requires
            480 <= usable_size,
    ;
    assert((usable_size - 12) * 64 / 255 - 23 <= usable_size - 35) by (nonlinear_arith)
        requires
            480 <= usable_size <= 65536,
    ;
}

/// The largest local payload for a cell on a page of this kind.
pub fn max_local_payload(usable_size: u32, is_table_leaf: bool) -> (r: usize)
    requires
        480 <= usable_size <= 65536,
    ensures
        r == spec_max_local(usable_size as int, is_table_leaf),
        r <= 65501,
{
    proof {
        lemma_local_bounds(usable_size as int);
    }
    if is_table_leaf {
        (usable_size - 35) as usize
    } else {
        (((usable_size - 12) * 64 / 255) - 23) as usize
    }
}

/// The smallest local payload for an overflowing cell on a page of
/// this kind; the formula is the same for every page kind.
pub fn min_local_payload(usable_size: u32, _is_table_leaf: bool) -> (r: usize)
    requires
        480 <= usable_size <= 65536,
    ensures
        r == spec_min_local(usable_size as int),
        35 <= r <= 65501,
{
    proof {
        lemma_local_bounds(usable_size as int);
    }
    (((usable_size - 12) * 32 / 255) - 23) as usize
}

/// How much of a cell's payload is stored locally, before any
/// overflow pointer. The result never exceeds the payload size.
pub fn calculate_local_payload_size(payload_size: u64, usable_size: u32, is_table_leaf: bool) -> (r:
    usize)
    requires
        480 <= usable_size <= 65536,
    ensures
        r == spec_local_payload_size(payload_size as int, usable_size as int, is_table_leaf),
        r as u64 <= payload_size,
        r <= 65501,
{
    proof {
        lemma_local_bounds(usable_size as int);
    }
    let max_local = max_local_payload(usable_size, is_table_leaf);
    let min_local = min_local_payload(usable_size, is_table_leaf);

    if payload_size <= max_local as u64 {
        payload_size as usize
    } else {
        let k: u64 = min_local as u64 + (payload_size - min_local as u64) % (usable_size as u64
            - 4);
        proof {
            assert((payload_size - min_local as u64) as int % (usable_size as int - 4)
                <= (payload_size - min_local as u64) as int) by (nonlinear_arith)
                requires
                    payload_size as int - min_local as int >= 0,
                    usable_size as int - 4 > 0,
            ;
        }
        if k <= max_local as u64 {
            k as usize
        } else {
            min_local
        }
    }
}

/// The table-leaf cell at the front of `data` (the page bytes from
/// the cell's offset on): payload-size varint, rowid varint, local
/// payload, and a 4-byte overflow page number when the payload
/// overflows and the bytes for the pointer are present.
pub open spec fn spec_parse_table_leaf_cell(
    data: Seq<u8>,
    cell_offset: u16,
    usable_size: int,
) -> Option<TableLeafCellV> {
    match spec_parse_varint(data) {
        None => None,
        Some((payload_size, len1)) => match spec_varint_at(data, len1) {
            None => None,
            Some((rowid_raw, len2)) => {
                let offset = len1 + len2;
                let local = spec_local_payload_size(payload_size as int, usable_size, true);
                let payload = if offset + local <= data.len() {
                    spec_parse_record(data.subrange(offset, offset + local))
                } else {
                    None
                };
                let overflow_page: Option<u32> = if payload_size > local {
                    if offset + local + 4 <= data.len() {
                        Some(spec_be_uint(data, offset + local, 4) as u32)
                    } else {
                        None
                    }
                } else {
                    None
                };
                let cell_size = offset + local + (if overflow_page is Some {
                    4int
                } else {
                    0int
                });
                Some(
                    TableLeafCellV {
                        cell_offset,
                        cell_size: cell_size as usize,
                        payload_size,
                        rowid: spec_signed_of(rowid_raw),
                        local_payload_size: local as usize,
                        payload,
                        overflow_page,
                    },
                )
            },
        },
    }
}

/// The table-interior cell at the front of `data`: a 4-byte left
/// child page number, then a rowid varint.
pub open spec fn spec_parse_table_interior_cell(data: Seq<u8>, cell_offset: u16) -> Option<
    TableInteriorCell,
> {
    if data.len() < 4 {
        None
    } else {
        match spec_varint_at(data, 4) {
            None => None,
            Some((rowid_raw, len)) => Some(
                TableInteriorCell {
                    cell_offset,
                    cell_size: (4 + len) as usize,
                    left_child_page: spec_be_uint(data, 0, 4) as u32,
                    rowid: spec_signed_of(rowid_raw),
                },
            ),
        }
    }
}

/// The index-leaf cell at the front of `data`: payload-size varint,
/// local payload, and an optional overflow page number.
pub open spec fn spec_parse_index_leaf_cell(
    data: Seq<u8>,
    cell_offset: u16,
    usable_size: int,
) -> Option<IndexLeafCellV> {
    match spec_parse_varint(data) {
        None => None,
        Some((payload_size, len1)) => {
            let local = spec_local_payload_size(payload_size as int, usable_size, false);
            let payload = if len1 + local <= data.len() {
                spec_parse_record(data.subrange(len1, len1 + local))
            } else {
                None
            };
            let overflow_page: Option<u32> = if payload_size > local {
                if len1 + local + 4 <= data.len() {
                    Some(spec_be_uint(data, len1 + local, 4) as u32)
                } else {
                    None
                }
            } else {
                None
            };
            let cell_size = len1 + local + (if overflow_page is Some {
                4int
            } else {
                0int
            });
            Some(
                IndexLeafCellV {
                    cell_offset,
                    cell_size: cell_size as usize,
                    payload_size,
                    local_payload_size: local as usize,
                    payload,
                    overflow_page,
                },
            )
        },
    }
}

/// The index-interior cell at the front of `data`: a 4-byte left
/// child page number, payload-size varint, local payload, and an
/// optional overflow page number.
pub open spec fn spec_parse_index_interior_cell(
    data: Seq<u8>,
    cell_offset: u16,
    usable_size: int,
) -> Option<IndexInteriorCellV> {
    if data.len() < 4 {
        None
    } else {
        match spec_varint_at(data, 4) {
            None => None,
            Some((payload_size, len)) => {
                let offset = 4 + len;
                let local = spec_local_payload_size(payload_size as int, usable_size, false);
                let payload = if offset + local <= data.len() {
                    spec_parse_record(data.subrange(offset, offset + local))
                } else {
                    None
                };
                let overflow_page: Option<u32> = if payload_size > local {
                    if offset + local + 4 <= data.len() {
                        Some(spec_be_uint(data, offset + local, 4) as u32)
                    } else {
                        None
                    }
                } else {
                    None
                };
                let cell_size = offset + local + (if overflow_page is Some {
                    4int
                } else {
                    0int
                });
                Some(
                    IndexInteriorCellV {
                        cell_offset,
                        cell_size: cell_size as usize,
                        left_child_page: spec_be_uint(data, 0, 4) as u32,
                        payload_size,
                        local_payload_size: local as usize,
                        payload,
                        overflow_page,
                    },
                )
            },
        }
    }
}

/// The cell at `cell_offset` of `page_data`, decoded according to the
/// page type; `None` when the page type bears no cells or the cell's
/// leading fields do not fit.
pub open spec fn spec_parse_cell(
    page_data: Seq<u8>,
    cell_offset: u16,
    page_type: PageType,
    usable_size: int,
) -> Option<CellV> {
    let tail = page_data.subrange(cell_offset as int, page_data.len() as int);
    match page_type {
        PageType::LeafTable => match spec_parse_table_leaf_cell(tail, cell_offset, usable_size) {
            Some(c) => Some(CellV::TableLeaf(c)),
            None => None,
        },
        PageType::InteriorTable => match spec_parse_table_interior_cell(tail, cell_offset) {
            Some(c) => Some(CellV::TableInterior(c)),
            None => None,
        },
        PageType::LeafIndex => match spec_parse_index_leaf_cell(tail, cell_offset, usable_size) {
            Some(c) => Some(CellV::IndexLeaf(c)),
            None => None,
        },
        PageType::InteriorIndex => match spec_parse_index_interior_cell(
            tail,
            cell_offset,
            usable_size,
        ) {
            Some(c) => Some(CellV::IndexInterior(c)),
            None => None,
        },
        _ => None,
    }
}

fn parse_table_leaf_cell(data: &[u8], cell_offset: u16, usable_size: u32) -> (r: Result<
    TableLeafCell,
    SqliteVizError,
>)
    requires
        480 <= usable_size <= 65536,
    ensures
        r is Ok <==> spec_parse_table_leaf_cell(data@, cell_offset, usable_size as int) is Some,
        r matches Ok(c) ==> Some(c@) == spec_parse_table_leaf_cell(
            data@,
            cell_offset,
            usable_size as int,
        ),
        r matches Err(e) ==> e == SqliteVizError::InvalidVarint,
{
    let dlen = data.len();
    let (payload_size, len1) = match parse_varint(data) {
        Ok(p) => p,
        Err(e) => {
            return Err(e);
        },
    };
    let tail = vstd::slice::slice_subrange(data, len1, dlen);
    let (rowid, len2) = match parse_signed_varint(tail) {
        Ok(p) => p,
        Err(e) => {
            return Err(e);
        },
    };
    let offset = len1 + len2;

    let local_payload_size = calculate_local_payload_size(payload_size, usable_size, true);

    let payload = if offset + local_payload_size <= dlen {
        match parse_record(vstd::slice::slice_subrange(data, offset, offset + local_payload_size)) {
            Ok(rec) => Some(rec),
            Err(_) => None,
        }
    } else {
        None
    };

    let overflow_page = if payload_size > local_payload_size as u64 {
        let overflow_offset = offset + local_payload_size;
        if overflow_offset + 4 <= dlen {
            Some(read_be_u32(data, overflow_offset))
        } else {
            None
        }
    } else {
        None
    };

    let cell_size = offset + local_payload_size + (if overflow_page.is_some() {
        4
    } else {
        0
    });

    Ok(
        TableLeafCell {
            cell_offset,
            cell_size,
            payload_size,
            rowid,
            local_payload_size,
            payload,
            overflow_page,
        },
    )
}

fn parse_table_interior_cell(data: &[u8], cell_offset: u16) -> (r: Result<
    TableInteriorCell,
    SqliteVizError,
>)
    ensures
        r is Ok <==> spec_parse_table_interior_cell(data@, cell_offset) is Some,
        r matches Ok(c) ==> Some(c) == spec_parse_table_interior_cell(data@, cell_offset),
        data@.len() < 4 ==> r == Err::<TableInteriorCell, SqliteVizError>(
            SqliteVizError::UnexpectedEof { context: "table interior cell" },
        ),
        data@.len() >= 4 && r is Err ==> r == Err::<TableInteriorCell, SqliteVizError>(
            SqliteVizError::InvalidVarint,
        ),
{
    let dlen = data.len();
    if dlen < 4 {
        return Err(SqliteVizError::UnexpectedEof { context: "table interior cell" });
    }
    let left_child_page = read_be_u32(data, 0);
    let tail = vstd::slice::slice_subrange(data, 4, dlen);
    let (rowid, len) = match parse_signed_varint(tail) {
        Ok(p) => p,
        Err(e) => {
            return Err(e);
        },
    };
    Ok(TableInteriorCell { cell_offset, cell_size: 4 + len, left_child_page, rowid })
}

fn parse_index_leaf_cell(data: &[u8], cell_offset: u16, usable_size: u32) -> (r: Result<
    IndexLeafCell,
    SqliteVizError,
>)
    requires
        480 <= usable_size <= 65536,
    ensures
        r is Ok <==> spec_parse_index_leaf_cell(data@, cell_offset, usable_size as int) is Some,
        r matches Ok(c) ==> Some(c@) == spec_parse_index_leaf_cell(
            data@,
            cell_offset,
            usable_size as int,
        ),
        r matches Err(e) ==> e == SqliteVizError::InvalidVarint,
{
    let dlen = data.len();
    let (payload_size, len1) = match parse_varint(data) {
        Ok(p) => p,
        Err(e) => {
            return Err(e);
        },
    };

    let local_payload_size = calculate_local_payload_size(payload_size, usable_size, false);

    let payload = if len1 + local_payload_size <= dlen {
        match parse_record(vstd::slice::slice_subrange(data, len1, len1 + local_payload_size)) {
            Ok(rec) => Some(rec),
            Err(_) => None,
        }
    } else {
        None
    };

    let overflow_page = if payload_size > local_payload_size as u64 {
        let overflow_offset = len1 + local_payload_size;
        if overflow_offset + 4 <= dlen {
            Some(read_be_u32(data, overflow_offset))
        } else {
            None
        }
    } else {
        None
    };

    let cell_size = len1 + local_payload_size + (if overflow_page.is_some() {
        4
    } else {
        0
    });

    Ok(
        IndexLeafCell {
            cell_offset,
            cell_size,
            payload_size,
            local_payload_size,
            payload,
            overflow_page,
        },
    )
}

fn parse_index_interior_cell(data: &[u8], cell_offset: u16, usable_size: u32) -> (r: Result<
    IndexInteriorCell,
    SqliteVizError,
>)
    requires
        480 <= usable_size <= 65536,
    ensures
        r is Ok <==> spec_parse_index_interior_cell(data@, cell_offset, usable_size as int)
            is Some,
        r matches Ok(c) ==> Some(c@) == spec_parse_index_interior_cell(
            data@,
            cell_offset,
            usable_size as int,
        ),
        data@.len() < 4 ==> r == Err::<IndexInteriorCell, SqliteVizError>(
            SqliteVizError::UnexpectedEof { context: "index interior cell" },
        ),
        data@.len() >= 4 && r is Err ==> r == Err::<IndexInteriorCell, SqliteVizError>(
            SqliteVizError::InvalidVarint,
        ),
{
    let dlen = data.len();
    if dlen < 4 {
        return Err(SqliteVizError::UnexpectedEof { context: "index interior cell" });
    }
    let left_child_page = read_be_u32(data, 0);
    let tail = vstd::slice::slice_subrange(data, 4, dlen);
    let (payload_size, len) = match parse_varint(tail) {
        Ok(p) => p,
        Err(e) => {
            return Err(e);
        },
    };
    let offset = 4 + len;

    let local_payload_size = calculate_local_payload_size(payload_size, usable_size, false);

    let payload = if offset + local_payload_size <= dlen {
        match parse_record(vstd::slice::slice_subrange(data, offset, offset + local_payload_size)) {
            Ok(rec) => Some(rec),
            Err(_) => None,
        }
    } else {
        None
    };

    let overflow_page = if payload_size > local_payload_size as u64 {
        let overflow_offset = offset + local_payload_size;
        if overflow_offset + 4 <= dlen {
            Some(read_be_u32(data, overflow_offset))
        } else {
            None
        }
    } else {
        None
    };

    let cell_size = offset + local_payload_size + (if overflow_page.is_some() {
        4
    } else {
        0
    });

    Ok(
        IndexInteriorCell {
            cell_offset,
            cell_size,
            left_child_page,
            payload_size,
            local_payload_size,
            payload,
            overflow_page,
        },
    )
}

/// Parse the cell at `cell_offset` of a page, according to the page
/// type. Page types that bear no cells are rejected with
/// `InvalidPageType`; a cell whose leading fields do not fit is
/// rejected with the failing field's error.
pub fn parse_cell(page_data: &[u8], cell_offset: u16, page_type: PageType, usable_size: u32) -> (r:
    Result<Cell, SqliteVizError>)
    requires
        cell_offset as int <= page_data@.len(),
        480 <= usable_size <= 65536,
    ensures
        r is Ok <==> spec_parse_cell(page_data@, cell_offset, page_type, usable_size as int)
            is Some,
        r matches Ok(c) ==> Some(c@) == spec_parse_cell(
            page_data@,
            cell_offset,
            page_type,
            usable_size as int,
        ),
        ({
            let tail_len = page_data@.len() - cell_offset;
            &&& ((page_type == PageType::LeafTable || page_type == PageType::LeafIndex) && r
                is Err ==> r == Err::<Cell, SqliteVizError>(SqliteVizError::InvalidVarint))
            &&& (page_type == PageType::InteriorTable && tail_len < 4 ==> r == Err::<
                Cell,
                SqliteVizError,
            >(SqliteVizError::UnexpectedEof { context: "table interior cell" }))
            &&& (page_type == PageType::InteriorTable && tail_len >= 4 && r is Err ==> r == Err::<
                Cell,
                SqliteVizError,
            >(SqliteVizError::InvalidVarint))
            &&& (page_type == PageType::InteriorIndex && tail_len < 4 ==> r == Err::<
                Cell,
                SqliteVizError,
            >(SqliteVizError::UnexpectedEof { context: "index interior cell" }))
            &&& (page_type == PageType::InteriorIndex && tail_len >= 4 && r is Err ==> r == Err::<
                Cell,
                SqliteVizError,
            >(SqliteVizError::InvalidVarint))
            &&& (!(page_type == PageType::LeafTable || page_type == PageType::LeafIndex
                || page_type == PageType::InteriorTable || page_type == PageType::InteriorIndex)
                ==> r == Err::<Cell, SqliteVizError>(SqliteVizError::InvalidPageType(0)))
        }),
{
    let dlen = page_data.len();
    let data = vstd::slice::slice_subrange(page_data, cell_offset as usize, dlen);

    match page_type {
        PageType::LeafTable => match parse_table_leaf_cell(data, cell_offset, usable_size) {
            Ok(c) => Ok(Cell::TableLeaf(c)),
            Err(e) => Err(e),
        },
        PageType::InteriorTable => match parse_table_interior_cell(data, cell_offset) {
            Ok(c) => Ok(Cell::TableInterior(c)),
            Err(e) => Err(e),
        },
        PageType::LeafIndex => match parse_index_leaf_cell(data, cell_offset, usable_size) {
            Ok(c) => Ok(Cell::IndexLeaf(c)),
            Err(e) => Err(e),
        },
        PageType::InteriorIndex => match parse_index_interior_cell(data, cell_offset, usable_size) {
            Ok(c) => Ok(Cell::IndexInterior(c)),
            Err(e) => Err(e),
        },
        _ => Err(SqliteVizError::InvalidPageType(0)),
    }
}

} // verus!
