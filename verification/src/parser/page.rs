use crate::error::SqliteVizError;
use crate::model::cell::{Cell, CellV};
use crate::model::page::{BTreePageHeader, Page, PageType, PageV, spec_header_size,
    spec_is_interior, spec_page_type_from_byte};
use crate::parser::bytes::{read_be_u16, read_be_u32, spec_be_uint};
use crate::parser::cell::{parse_cell, spec_parse_cell};
use vstd::prelude::*;

verus! {

/// The B-tree page header at the front of `data`: flags at byte 0,
/// three big-endian 16-bit fields, a fragmentation count, and, on
/// interior pages only, a 4-byte right-most pointer.
pub open spec fn spec_parse_btree_header(data: Seq<u8>, page_type: PageType) -> Option<
    BTreePageHeader,
> {
    if data.len() < 8 {
        None
    } else if spec_is_interior(page_type) && data.len() < 12 {
        None
    } else {
        Some(
            BTreePageHeader {
                page_type,
                first_freeblock: spec_be_uint(data, 1, 2) as u16,
                cell_count: spec_be_uint(data, 3, 2) as u16,
                cell_content_start: spec_be_uint(data, 5, 2) as u16,
                fragmented_free_bytes: data[7],
                right_most_pointer: if spec_is_interior(page_type) {
                    Some(spec_be_uint(data, 8, 4) as u32)
                } else {
                    None
                },
            },
        )
    }
}

/// Parse a B-tree page header from the bytes that start at the page's
/// header (past the 100-byte file header on page 1).
pub fn parse_btree_header(data: &[u8], page_type: PageType) -> (r: Result<
    BTreePageHeader,
    SqliteVizError,
>)
    ensures
        r is Ok <==> spec_parse_btree_header(data@, page_type) is Some,
        r matches Ok(h) ==> Some(h) == spec_parse_btree_header(data@, page_type),
        data@.len() < 8 ==> r == Err::<BTreePageHeader, SqliteVizError>(
            SqliteVizError::UnexpectedEof { context: "btree page header" },
        ),
        data@.len() >= 8 && spec_is_interior(page_type) && data@.len() < 12 ==> r == Err::<
            BTreePageHeader,
            SqliteVizError,
        >(SqliteVizError::UnexpectedEof { context: "interior page header" }),
{
    if data.len() < 8 {
        return Err(SqliteVizError::UnexpectedEof { context: "btree page header" });
    }

    let first_freeblock = read_be_u16(data, 1);
    let cell_count = read_be_u16(data, 3);
    let cell_content_start = read_be_u16(data, 5);
    let fragmented_free_bytes = data[7];

    let right_most_pointer = if page_type.is_interior() {
        if data.len() < 12 {
            return Err(SqliteVizError::UnexpectedEof { context: "interior page header" });
        }
        Some(read_be_u32(data, 8))
    } else {
        None
    };

    Ok(
        BTreePageHeader {
            page_type,
            first_freeblock,
            cell_count,
            cell_content_start,
            fragmented_free_bytes,
            right_most_pointer,
        },
    )
}

/// The cell that one cell-pointer entry yields: none when the usable
/// size is outside the range the local-payload formula is defined
/// for, when the pointer leaves the page, or when the cell itself is
/// malformed.
pub open spec fn spec_cell_at(
    page_data: Seq<u8>,
    ptr: u16,
    page_type: PageType,
    usable_size: int,
) -> Option<CellV> {
    if usable_size < 480 || usable_size > 65536 || ptr as int > page_data.len() {
        None
    } else {
        spec_parse_cell(page_data, ptr, page_type, usable_size)
    }
}

/// The cells of a page, in cell-pointer order, skipping every entry
/// whose cell cannot be decoded.
pub open spec fn spec_page_cells(
    page_data: Seq<u8>,
    pointers: Seq<u16>,
    page_type: PageType,
    usable_size: int,
) -> Seq<CellV>
    decreases pointers.len(),
{
    if pointers.len() == 0 {
        Seq::empty()
    } else {
        let rest = spec_page_cells(page_data, pointers.drop_first(), page_type, usable_size);
        match spec_cell_at(page_data, pointers[0], page_type, usable_size) {
            Some(c) => seq![c] + rest,
            None => rest,
        }
    }
}

/// The `n` big-endian 16-bit cell pointers starting at `cps`.
pub open spec fn spec_cell_pointers(page_data: Seq<u8>, cps: int, n: int) -> Seq<u16> {
    Seq::new(n as nat, |i: int| spec_be_uint(page_data, cps + 2 * i, 2) as u16)
}

/// The decoded form of a whole page.
///
/// Page 1 carries the 100-byte file header before its B-tree header.
/// A zero page-type byte is an overflow or freelist page, kept opaque
/// with no cells; any other unrecognized type byte fails. The free
/// space is the gap between the cell-pointer array and the cell
/// content area, plus the fragmented bytes.
#[verifier::opaque]
pub open spec fn spec_parse_page(
    page_data: Seq<u8>,
    page_number: u32,
    page_size: u32,
    usable_size: int,
) -> Option<PageV> {
    let header_offset: int = if page_number == 1 {
        100
    } else {
        0
    };
    if page_data.len() < header_offset + 8 {
        None
    } else {
        let page_type_byte = page_data[header_offset];
        match spec_page_type_from_byte(page_type_byte) {
            None => {
                if page_type_byte == 0 {
                    Some(
                        PageV {
                            page_number,
                            page_type: PageType::Overflow,
                            header: None,
                            cell_pointers: Seq::empty(),
                            cells: Seq::empty(),
                            free_space: page_size as usize,
                            raw_data: page_data,
                        },
                    )
                } else {
                    None
                }
            },
            Some(page_type) => {
                match spec_parse_btree_header(
                    page_data.subrange(header_offset, page_data.len() as int),
                    page_type,
                ) {
                    None => None,
                    Some(header) => {
                        let cps = header_offset + spec_header_size(page_type);
                        let cpe = cps + header.cell_count * 2;
                        if cpe > page_data.len() {
                            None
                        } else {
                            let pointers = spec_cell_pointers(
                                page_data,
                                cps,
                                header.cell_count as int,
                            );
                            let cells = spec_page_cells(
                                page_data,
                                pointers,
                                page_type,
                                usable_size,
                            );
                            let content_start: int = if header.cell_content_start == 0 {
                                65536
                            } else {
                                header.cell_content_start as int
                            };
                            let free_space = (if content_start >= cpe {
                                content_start - cpe
                            } else {
                                0int
                            }) + header.fragmented_free_bytes;
                            Some(
                                PageV {
                                    page_number,
                                    page_type,
                                    header: Some(header),
                                    cell_pointers: pointers,
                                    cells,
                                    free_space: free_space as usize,
                                    raw_data: page_data,
                                },
                            )
                        }
                    },
                }
            },
        }
    }
}

/// Parse a complete page from its raw bytes.
///
/// Structural failures (a missing header, an unrecognized nonzero
/// page-type byte, a cell-pointer array past the end) are errors;
/// individual malformed cells are skipped, so one corrupt cell does
/// not abort the rest of the page.
#[verifier::rlimit(100)]
pub fn parse_page(page_data: &[u8], page_number: u32, page_size: u32, usable_size: u32) -> (r:
    Result<Page, SqliteVizError>)
    ensures
        r is Ok <==> spec_parse_page(page_data@, page_number, page_size, usable_size as int)
            is Some,
        r matches Ok(p) ==> Some(p@) == spec_parse_page(
            page_data@,
            page_number,
            page_size,
            usable_size as int,
        ),
        r matches Err(e) ==> (e matches SqliteVizError::UnexpectedEof { .. } || e matches
            SqliteVizError::InvalidPageType(_)),
        ({
            let header_offset: int = if page_number == 1 {
                100
            } else {
                0
            };
            let type_byte = page_data@[header_offset];
            let found_type = spec_page_type_from_byte(type_byte);
            let pt = found_type->Some_0;
            let found_header = spec_parse_btree_header(
                page_data@.subrange(header_offset, page_data@.len() as int),
                pt,
            );
            let h = found_header->Some_0;
            &&& (page_data@.len() < header_offset + 8 ==> r == Err::<Page, SqliteVizError>(
                SqliteVizError::UnexpectedEof { context: "page" },
            ))
            &&& (page_data@.len() >= header_offset + 8 && found_type is None && type_byte != 0
                ==> r == Err::<Page, SqliteVizError>(SqliteVizError::InvalidPageType(type_byte)))
            &&& (page_data@.len() >= header_offset + 8 && found_type is Some && found_header
                is None ==> r == Err::<Page, SqliteVizError>(
                SqliteVizError::UnexpectedEof { context: "interior page header" },
            ))
            &&& (page_data@.len() >= header_offset + 8 && found_type is Some && found_header
                is Some && header_offset + spec_header_size(pt) + h.cell_count * 2
                > page_data@.len() ==> r == Err::<Page, SqliteVizError>(
                SqliteVizError::UnexpectedEof { context: "cell pointer array" },
            ))
        }),
{
    proof {
        reveal(spec_parse_page);
    }
    let dlen = page_data.len();
    let header_offset: usize = if page_number == 1 {
        100
    } else {
        0
    };

    if dlen < 8 || header_offset > dlen - 8 {
        return Err(SqliteVizError::UnexpectedEof { context: "page" });
    }

    let header_data = vstd::slice::slice_subrange(page_data, header_offset, dlen);
    let page_type_byte = page_data[header_offset];

    let page_type = match PageType::from_byte(page_type_byte) {
        Some(pt) => pt,
        None => {
            if page_type_byte == 0 {
                let page = Page {
                    page_number,
                    page_type: PageType::Overflow,
                    header: None,
                    cell_pointers: Vec::new(),
                    cells: Vec::new(),
                    free_space: page_size as usize,
                    raw_data: vstd::slice::slice_to_vec(page_data),
                };
                proof {
                    let sv = spec_parse_page(
                        page_data@,
                        page_number,
                        page_size,
                        usable_size as int,
                    )->Some_0;
                    assert(page@.cell_pointers =~= sv.cell_pointers);
                    assert(page@.cells =~= sv.cells);
                }
                return Ok(page);
            }
            return Err(SqliteVizError::InvalidPageType(page_type_byte));
        },
    };

    let header = match parse_btree_header(header_data, page_type) {
        Ok(h) => h,
        Err(e) => {
            return Err(e);
        },
    };
    let header_size = page_type.header_size();

    let cell_pointer_start = header_offset + header_size;
    let cell_count = header.cell_count as usize;

    if cell_count * 2 > dlen || cell_pointer_start > dlen - cell_count * 2 {
        return Err(SqliteVizError::UnexpectedEof { context: "cell pointer array" });
    }
    let cell_pointer_end = cell_pointer_start + cell_count * 2;

    let ghost pointers_spec = spec_cell_pointers(
        page_data@,
        cell_pointer_start as int,
        header.cell_count as int,
    );

    let mut cell_pointers: Vec<u16> = Vec::new();
    let mut i: usize = 0;
    while i < cell_count
        invariant
            i <= cell_count,
            dlen == page_data@.len(),
            cell_pointer_start + cell_count * 2 <= dlen,
            cell_pointers@.len() == i,
            forall|j: int| 0 <= j < i ==> cell_pointers@[j] == pointers_spec[j],
            pointers_spec == spec_cell_pointers(
                page_data@,
                cell_pointer_start as int,
                cell_count as int,
            ),
        decreases cell_count - i,
    {
        let ptr = read_be_u16(page_data, cell_pointer_start + i * 2);
        cell_pointers.push(ptr);
        i = i + 1;
    }
    proof {
        assert(cell_pointers@ =~= pointers_spec);
    }

    let ghost cells_spec = spec_page_cells(
        page_data@,
        pointers_spec,
        page_type,
        usable_size as int,
    );

    let mut cells: Vec<Cell> = Vec::new();
    let mut k: usize = 0;
    proof {
        assert(cells.deep_view() =~= Seq::<CellV>::empty());
        assert(pointers_spec.skip(0) =~= pointers_spec);
    }
    while k < cell_pointers.len()
        invariant
            k <= cell_pointers@.len(),
            dlen == page_data@.len(),
            cell_pointers@ == pointers_spec,
            cells_spec =~= cells.deep_view() + spec_page_cells(
                page_data@,
                pointers_spec.skip(k as int),
                page_type,
                usable_size as int,
            ),
        decreases cell_pointers@.len() - k,
    {
        let ptr = cell_pointers[k];
        let ghost prev_cells = cells.deep_view();
        proof {
            assert(pointers_spec.skip(k as int)[0] == pointers_spec[k as int]);
            assert(pointers_spec.skip(k as int).drop_first() =~= pointers_spec.skip(k as int + 1));
        }
        if 480 <= usable_size && usable_size <= 65536 && (ptr as usize) <= dlen {
            match parse_cell(page_data, ptr, page_type, usable_size) {
                Ok(cell) => {
                    let ghost cv = cell@;
                    cells.push(cell);
                    proof {
                        assert(cells.deep_view() =~= prev_cells + seq![cv]);
                    }
                },
                Err(_) => {},
            }
        }
        k = k + 1;
    }
    proof {
        assert(pointers_spec.skip(pointers_spec.len() as int) =~= Seq::<u16>::empty());
        assert(cells_spec =~= cells.deep_view());
    }

    let content_start: usize = if header.cell_content_start == 0 {
        65536
    } else {
        header.cell_content_start as usize
    };
    let gap: usize = if content_start >= cell_pointer_end {
        content_start - cell_pointer_end
    } else {
        0
    };
    let free_space = gap + header.fragmented_free_bytes as usize;

    Ok(
        Page {
            page_number,
            page_type,
            header: Some(header),
            cell_pointers,
            cells,
            free_space,
            raw_data: vstd::slice::slice_to_vec(page_data),
        },
    )
}

/// Parse an overflow page's link and content size: the first four
/// bytes hold the next page number (zero ends the chain), the rest of
/// the usable bytes are payload content.
pub fn parse_overflow_page(page_data: &[u8], _page_number: u32, usable_size: u32) -> (r: Result<
    (Option<u32>, usize),
    SqliteVizError,
>)
    requires
        usable_size >= 4,
    ensures
        r is Err <==> page_data@.len() < 4,
        r matches Err(e) ==> e matches SqliteVizError::UnexpectedEof { .. },
        r matches Ok(p) ==> {
            &&& p.0 == (if spec_be_uint(page_data@, 0, 4) == 0 {
                Option::<u32>::None
            } else {
                Some(spec_be_uint(page_data@, 0, 4) as u32)
            })
            &&& p.1 == usable_size - 4
        },
{
    if page_data.len() < 4 {
        return Err(SqliteVizError::UnexpectedEof { context: "overflow page" });
    }
    let next_page_raw = read_be_u32(page_data, 0);
    let next_page = if next_page_raw == 0 {
        None
    } else {
        Some(next_page_raw)
    };
    let content_size = (usable_size - 4) as usize;
    Ok((next_page, content_size))
}

} // verus!
