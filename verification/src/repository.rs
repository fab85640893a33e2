//! The order store's rules: the rows it writes, the page it reads, and the
//! list it hands back.
use vstd::prelude::*;
use crate::orders::{Order, OrderList, OrderRow, PageRequest, PageResponse, row_to_order};

verus! {

/// Page number a request asks for: at least 1, and 1 when no page is given.
pub open spec fn page_no_of(page: Option<PageRequest>) -> int {
    match page {
        Some(p) => if p.page >= 1 {
            p.page as int
        } else {
            1
        },
        None => 1,
    }
}

/// Page size a request asks for: at least 1, and 10 when no page is given.
pub open spec fn page_size_of(page: Option<PageRequest>) -> int {
    match page {
        Some(p) => if p.page_size >= 1 {
            p.page_size as int
        } else {
            1
        },
        None => 10,
    }
}

/// Number of rows before the requested page.
pub open spec fn page_offset_of(page: Option<PageRequest>) -> int {
    (page_no_of(page) - 1) * page_size_of(page)
}

/// The rows a page covers: skip `offset` rows, then take `page_size`.
#[derive(Clone, Copy, Debug, PartialEq, Eq, Structural)]
pub struct PageWindow {
    pub page_no: i32,
    pub page_size: i32,
    pub offset: i64,
}

/// The orders store, over a connection pool of type `P`.
#[derive(Clone)]
pub struct MySqlOrderRepository<P> {
    pool: P,
}

impl<P> MySqlOrderRepository<P> {
    pub closed spec fn spec_pool(&self) -> P {
        self.pool
    }

    /// A store over `pool`.
    pub fn new(pool: P) -> (r: Self)
        ensures
            r.spec_pool() == pool,
    {
        MySqlOrderRepository { pool }
    }

    /// The connection pool.
    pub fn pool(&self) -> (r: &P)
        ensures
            *r == self.spec_pool(),
    {
        &self.pool
    }

    /// Whether the offset of the requested page fits in an `i32`, where the
    /// page arithmetic is done.
    pub fn page_offset_fits(page: &Option<PageRequest>) -> (r: bool)
        ensures
            r == (page_offset_of(*page) <= i32::MAX),
    {
        let (page_no, page_size) = Self::page_numbers(page);
        let a: i64 = page_no as i64 - 1;
        let b: i64 = page_size as i64;
        assert(0 <= a * b <= 0x7fff_ffff * 0x7fff_ffff) by (nonlinear_arith)
            requires
                0 <= a < 0x7fff_ffff,
                1 <= b <= 0x7fff_ffff,
        ;
        a * b <= 0x7fff_ffff
    }

    fn page_numbers(page: &Option<PageRequest>) -> (r: (i32, i32))
        ensures
            r.0 == page_no_of(*page),
            r.1 == page_size_of(*page),
            r.0 >= 1,
            r.1 >= 1,
    {
        match page {
            Some(p) => (
                if p.page >= 1 {
                    p.page
                } else {
                    1
                },
                if p.page_size >= 1 {
                    p.page_size
                } else {
                    1
                },
            ),
            None => (1, 10),
        }
    }

    /// The window of rows for the requested page.
    pub fn page_window(page: &Option<PageRequest>) -> (r: PageWindow)
        requires
            page_offset_of(*page) <= i32::MAX,
        ensures
            r.page_no == page_no_of(*page),
            r.page_size == page_size_of(*page),
            r.offset == page_offset_of(*page),
    {
        let (page_no, page_size) = Self::page_numbers(page);
        assert(0 <= (page_no - 1) * page_size) by (nonlinear_arith)
            requires
                page_no >= 1,
                page_size >= 1,
        ;
        let offset: i32 = (page_no - 1) * page_size;
        PageWindow { page_no, page_size, offset: offset as i64 }
    }

    /// The page of orders made of `rows`, out of `total` orders in all.
    pub fn order_list(rows: Vec<OrderRow>, total: i64, window: PageWindow) -> (r: OrderList)
        ensures
            r.list.len() == rows.len(),
            forall|i: int| 0 <= i < rows.len() ==> #[trigger] r.list[i]@ == row_to_order(rows[i]@),
            r.page == Some(
                PageResponse { page: window.page_no, page_size: window.page_size, total },
            ),
    {
        let ghost rows0 = rows@;
        let mut list: Vec<Order> = Vec::new();
        for row in it: rows.into_iter()
            invariant
                it.seq() == rows0,
                list.len() == it.index(),
                forall|j: int| 0 <= j < list.len() ==> #[trigger] list[j]@ == row_to_order(
                    rows0[j]@,
                ),
        {
            list.push(row.into_proto());
        }
        OrderList {
            list,
            page: Some(PageResponse { page: window.page_no, page_size: window.page_size, total }),
        }
    }
}

/// Consecutive pages of one size tile a user's orders: the next page starts
/// right where the page before it ends.
pub proof fn lemma_pages_tile(page: i32, page_size: i32)
    requires
        1 <= page < i32::MAX,
    ensures
        page_offset_of(Some(PageRequest { page: (page + 1) as i32, page_size })) == page_offset_of(
            Some(PageRequest { page, page_size }),
        ) + page_size_of(Some(PageRequest { page, page_size })),
        page_size_of(Some(PageRequest { page: (page + 1) as i32, page_size })) == page_size_of(
            Some(PageRequest { page, page_size }),
        ),
{
    let s = page_size_of(Some(PageRequest { page, page_size }));
    assert(page * s == (page - 1) * s + s) by (nonlinear_arith);
}

/// The page a request asks for: a page number and size of at least one are
/// taken as given, smaller ones count as one, and no page at all means the
/// first page of ten; the rows skipped are those of all earlier pages.
pub proof fn lemma_requested_page(page: Option<PageRequest>)
    ensures
        page is None ==> page_no_of(page) == 1 && page_size_of(page) == 10 && page_offset_of(page)
            == 0,
        page matches Some(p) ==> {
            &&& p.page >= 1 ==> page_no_of(page) == p.page
            &&& p.page < 1 ==> page_no_of(page) == 1
            &&& p.page_size >= 1 ==> page_size_of(page) == p.page_size
            &&& p.page_size < 1 ==> page_size_of(page) == 1
        },
        page_offset_of(page) == (page_no_of(page) - 1) * page_size_of(page),
        page_offset_of(page) >= 0,
{
    let a = page_no_of(page) - 1;
    let b = page_size_of(page);
    assert(a * b >= 0) by (nonlinear_arith)
        requires
            a >= 0,
            b >= 1,
    ;
}

} // verus!
