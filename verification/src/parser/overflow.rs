use crate::error::SqliteVizError;
use crate::model::page::OverflowPage;
use crate::parser::bytes::{read_be_u32, spec_be_uint};
use crate::PageStore;
use vstd::prelude::*;

verus! {

/// The hard cap on the number of pages an overflow chain walk will
/// visit: a defensive bound that guarantees termination on corrupted
/// or cyclic chains, not a rule of the file format.
pub const OVERFLOW_CHAIN_PAGE_CAP: usize = 100000;

/// Information about an overflow chain.
#[derive(Debug, Clone, PartialEq)]
pub struct OverflowChainInfo {
    /// All pages in the chain, in the order they were visited.
    pub pages: Vec<OverflowPage>,
    /// Total payload bytes attributed across the chain.
    pub total_bytes: usize,
}

/// Parse an overflow page's header: the 4-byte next-page link (zero
/// ends the chain) and the content bytes that follow it.
pub fn parse_overflow_header(page_data: &[u8]) -> (r: Result<(Option<u32>, usize), SqliteVizError>)
    ensures
        r is Err <==> page_data@.len() < 4,
        r matches Err(e) ==> e matches SqliteVizError::UnexpectedEof { .. },
        r matches Ok(p) ==> {
            &&& p.0 == (if spec_be_uint(page_data@, 0, 4) == 0 {
                Option::<u32>::None
            } else {
                Some(spec_be_uint(page_data@, 0, 4) as u32)
            })
            &&& p.1 == page_data@.len() - 4
        },
{
    if page_data.len() < 4 {
        return Err(SqliteVizError::UnexpectedEof { context: "overflow page header" });
    }
    let next_page_raw = read_be_u32(page_data, 0);
    let next_page = if next_page_raw == 0 {
        None
    } else {
        Some(next_page_raw)
    };
    let content_size = page_data.len() - 4;
    Ok((next_page, content_size))
}

/// One walk of an overflow chain, step by step: from the current
/// link, fetch the page, read its next link, attribute up to
/// `usable_size - 4` content bytes (bounded by what remains), and
/// continue, stopping at a zero link, when no payload bytes remain,
/// or at the page cap. `None` when a fetch fails or a page cannot
/// hold a link.
pub open spec fn spec_chain_step(
    store: PageStore,
    current: Option<u32>,
    remaining: int,
    acc: Seq<OverflowPage>,
    total: int,
    usable_size: u32,
) -> Option<(Seq<OverflowPage>, int)>
    decreases (if OVERFLOW_CHAIN_PAGE_CAP + 1 - acc.len() < 0 {
        0int
    } else {
        OVERFLOW_CHAIN_PAGE_CAP + 1 - acc.len()
    }),
{
    match current {
        None => Some((acc, total)),
        Some(page_num) => {
            if acc.len() > OVERFLOW_CHAIN_PAGE_CAP || remaining <= 0 {
                Some((acc, total))
            } else {
                match store.spec_page_bytes(page_num) {
                    None => None,
                    Some(bytes) => {
                        if bytes.len() < 4 {
                            None
                        } else {
                            let next_raw = spec_be_uint(bytes, 0, 4);
                            let next: Option<u32> = if next_raw == 0 {
                                None
                            } else {
                                Some(next_raw as u32)
                            };
                            let max_content = usable_size - 4;
                            let content = if remaining <= max_content {
                                remaining
                            } else {
                                max_content as int
                            };
                            spec_chain_step(
                                store,
                                next,
                                remaining - content,
                                acc.push(
                                    OverflowPage {
                                        page_number: page_num,
                                        next_page: next,
                                        content_size: content as usize,
                                    },
                                ),
                                total + content,
                                usable_size,
                            )
                        }
                    },
                }
            }
        },
    }
}

/// The full walk of the overflow chain that starts at
/// `first_overflow_page` with `remaining_bytes` of payload left.
pub open spec fn spec_follow_chain(
    store: PageStore,
    first_overflow_page: u32,
    remaining_bytes: int,
    usable_size: u32,
) -> Option<(Seq<OverflowPage>, int)> {
    spec_chain_step(store, Some(first_overflow_page), remaining_bytes, Seq::empty(), 0, usable_size)
}

/// Follow an overflow chain and collect all its pages.
///
/// The walk always terminates: it stops at a zero next-link, once the
/// remaining payload bytes are all attributed, when it has visited
/// the page cap, or on the first page that cannot be fetched or is
/// too short to hold a link.
pub fn follow_overflow_chain(
    first_overflow_page: u32,
    usable_size: u32,
    remaining_bytes: usize,
    store: &PageStore,
) -> (r: Result<OverflowChainInfo, SqliteVizError>)
    requires
        usable_size >= 4,
    ensures
        r is Ok <==> spec_follow_chain(
            *store,
            first_overflow_page,
            remaining_bytes as int,
            usable_size,
        ) is Some,
        r matches Ok(info) ==> Some((info.pages@, info.total_bytes as int)) == spec_follow_chain(
            *store,
            first_overflow_page,
            remaining_bytes as int,
            usable_size,
        ),
        r matches Ok(info) ==> info.pages@.len() <= OVERFLOW_CHAIN_PAGE_CAP + 1,
        r matches Err(e) ==> (e matches SqliteVizError::PageOutOfBounds { .. } || e matches
            SqliteVizError::UnexpectedEof { .. }),
{
    let ghost goal = spec_follow_chain(
        *store,
        first_overflow_page,
        remaining_bytes as int,
        usable_size,
    );

    let mut pages: Vec<OverflowPage> = Vec::new();
    let mut current: Option<u32> = Some(first_overflow_page);
    let mut bytes_remaining: usize = remaining_bytes;
    let mut total_bytes: usize = 0;

    let max_content_per_page = (usable_size - 4) as usize;

    while current.is_some() && pages.len() <= OVERFLOW_CHAIN_PAGE_CAP && bytes_remaining > 0
        invariant
            usable_size >= 4,
            max_content_per_page == usable_size - 4,
            pages@.len() <= OVERFLOW_CHAIN_PAGE_CAP + 1,
            total_bytes + bytes_remaining == remaining_bytes,
            goal == spec_follow_chain(
                *store,
                first_overflow_page,
                remaining_bytes as int,
                usable_size,
            ),
            goal == spec_chain_step(
                *store,
                current,
                bytes_remaining as int,
                pages@,
                total_bytes as int,
                usable_size,
            ),
        decreases OVERFLOW_CHAIN_PAGE_CAP + 1 - pages@.len(),
    {
        let page_num = match current {
            Some(n) => n,
            None => {
                proof {
                    assert(false);
                }
                0
            },
        };
        let page_data = match store.read_page_raw(page_num) {
            Ok(d) => d,
            Err(e) => {
                proof {
                    assert(spec_chain_step(
                        *store,
                        current,
                        bytes_remaining as int,
                        pages@,
                        total_bytes as int,
                        usable_size,
                    ) is None);
                }
                return Err(e);
            },
        };
        let (next_page, _content) = match parse_overflow_header(page_data.as_slice()) {
            Ok(p) => p,
            Err(e) => {
                proof {
                    assert(spec_chain_step(
                        *store,
                        current,
                        bytes_remaining as int,
                        pages@,
                        total_bytes as int,
                        usable_size,
                    ) is None);
                }
                return Err(e);
            },
        };

        let content_size = if bytes_remaining < max_content_per_page {
            bytes_remaining
        } else {
            max_content_per_page
        };
        bytes_remaining = bytes_remaining - content_size;
        total_bytes = total_bytes + content_size;

        pages.push(OverflowPage { page_number: page_num, next_page, content_size });

        current = next_page;
    }

    proof {
        assert(goal == Some((pages@, total_bytes as int)));
    }
    Ok(OverflowChainInfo { pages, total_bytes })
}

} // verus!
