//! Splitting a listing into pages.

use vstd::prelude::*;

verus! {

/// One page of a listing.
#[derive(Debug)]
pub struct Page<T> {
    /// The items on this page.
    pub items: Vec<T>,
    /// The number of items in the whole listing.
    pub total: usize,
    /// The page number served (counted from 1).
    pub page: u32,
    /// The largest number of items on a page; `None` when the listing is not
    /// split.
    pub limit: Option<u32>,
}

/// The page number asked for: 1 when absent, and never below 1.
pub open spec fn page_number(page: Option<u32>) -> u32 {
    match page {
        Some(p) => if p == 0 {
            1
        } else {
            p
        },
        None => 1,
    }
}

/// The page size asked for: 10 when absent.
pub open spec fn page_limit(limit: Option<u32>) -> u32 {
    match limit {
        Some(l) => l,
        None => 10,
    }
}

/// The `page`-th run of `limit` consecutive items of `s`, pages counted from 1;
/// the last page may be shorter, and pages past the end are empty.
pub open spec fn page_of<T>(s: Seq<T>, page: u32, limit: u32) -> Seq<T> {
    let start = (page - 1) * limit;
    let end = start + limit;
    if start >= s.len() {
        Seq::empty()
    } else if end >= s.len() {
        s.subrange(start, s.len() as int)
    } else {
        s.subrange(start, end)
    }
}

/// The page number in use for a requested one.
pub fn resolve_page(page: Option<u32>) -> (r: u32)
    ensures
        r == page_number(page),
        r >= 1,
{
    match page {
        Some(p) => if p == 0 {
            1
        } else {
            p
        },
        None => 1,
    }
}

/// The page size in use for a requested one.
pub fn resolve_limit(limit: Option<u32>) -> (r: u32)
    ensures
        r == page_limit(limit),
{
    match limit {
        Some(l) => l,
        None => 10,
    }
}

/// The `page`-th page of `items` with `limit` items per page.
pub fn take_page<T>(items: Vec<T>, page: u32, limit: u32) -> (r: Vec<T>)
    requires
        page >= 1,
    ensures
        r@ == page_of(items@, page, limit),
{
    let ghost all = items@;
    let skipped: u64 = (page - 1) as u64;
    let size: u64 = limit as u64;
    assert(skipped * size <= 0xffff_ffffu64 * 0xffff_ffffu64) by (nonlinear_arith)
        requires
            skipped <= 0xffff_ffffu64,
            size <= 0xffff_ffffu64,
    ;
    let start: u64 = skipped * size;
    let len = items.len();
    if start >= len as u64 {
        return Vec::new();
    }
    let mut items = items;
    let mut rest = items.split_off(start as usize);
    let end: u64 = start + size;
    if end < len as u64 {
        rest.truncate(limit as usize);
    }
    rest
}

} // verus!
