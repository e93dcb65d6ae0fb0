//! Slicing an ordered collection of captured requests into pages.

use vstd::prelude::*;

use crate::record::{RecordModel, RequestData};
use crate::{DEFAULT_PAGE_SIZE, MAX_PAGE_SIZE};

verus! {

/// The pagination inputs of a listing request; either may be absent.
pub struct PaginationParams {
    /// The 1-based page wanted; defaults to 1, clamped below at 1.
    pub page: Option<usize>,
    /// Records per page; defaults to `DEFAULT_PAGE_SIZE`, clamped into
    /// `[1, MAX_PAGE_SIZE]`.
    pub page_size: Option<usize>,
}

/// One page of captured requests, with the true size of the whole
/// collection at the moment of the call.
pub struct PaginatedResponse {
    /// The records of the requested page, oldest first.
    pub requests: Vec<RequestData>,
    /// How many records the bucket held in all.
    pub total: usize,
    /// The page actually served, after clamping.
    pub page: usize,
    /// The page size actually used, after defaulting and clamping.
    pub page_size: usize,
    /// How many pages the collection spans: the ceiling of
    /// `total / page_size`, 0 when the collection is empty.
    pub total_pages: usize,
}

/// The mathematical value of one served page.
#[verifier::ext_equal]
pub ghost struct PageModel {
    pub requests: Seq<RecordModel>,
    pub total: int,
    pub page: int,
    pub page_size: int,
    pub total_pages: int,
}

impl View for PaginatedResponse {
    type V = PageModel;

    open spec fn view(&self) -> PageModel {
        PageModel {
            requests: self.requests@.map_values(|r: RequestData| r@),
            total: self.total as int,
            page: self.page as int,
            page_size: self.page_size as int,
            total_pages: self.total_pages as int,
        }
    }
}

/// The page actually served: the requested one, defaulting to 1 and never
/// below 1.
pub open spec fn spec_page(page: Option<usize>) -> int {
    match page {
        None => 1,
        Some(p) => if p < 1 {
            1
        } else {
            p as int
        },
    }
}

/// The page size actually used: the requested one, defaulting to
/// `DEFAULT_PAGE_SIZE` and clamped into `[1, MAX_PAGE_SIZE]`.
pub open spec fn spec_page_size(page_size: Option<usize>) -> int {
    let raw = match page_size {
        None => DEFAULT_PAGE_SIZE as int,
        Some(s) => s as int,
    };
    if raw > MAX_PAGE_SIZE as int {
        MAX_PAGE_SIZE as int
    } else if raw < 1 {
        1
    } else {
        raw
    }
}

/// The ceiling of `total / page_size`; 0 when `total` is 0.
pub open spec fn spec_total_pages(total: int, page_size: int) -> int {
    if total % page_size == 0 {
        total / page_size
    } else {
        total / page_size + 1
    }
}

/// The page a listing request is answered with: records
/// `[(page-1)*size, min(page*size, total))` of the collection in its
/// current order, or no records at all when the page starts past the end
/// — with `total` and `total_pages` still describing the whole
/// collection.
pub open spec fn spec_paginate(
    items: Seq<RecordModel>,
    page: Option<usize>,
    page_size: Option<usize>,
) -> PageModel {
    let p = spec_page(page);
    let ps = spec_page_size(page_size);
    let total = items.len() as int;
    let start = (p - 1) * ps;
    let end = if start + ps < total {
        start + ps
    } else {
        total
    };
    PageModel {
        requests: if start < total {
            items.subrange(start, end)
        } else {
            Seq::empty()
        },
        total,
        page: p,
        page_size: ps,
        total_pages: spec_total_pages(total, ps),
    }
}

/// Slices the collection into the requested page. Requesting a page past
/// the end is not an error: it yields no records, with `total` and
/// `total_pages` still reflecting the whole collection.
pub fn paginate(items: &Vec<RequestData>, page: Option<usize>, page_size: Option<usize>) -> (r:
    PaginatedResponse)
    ensures
        r@ == spec_paginate(items@.map_values(|x: RequestData| x@), page, page_size),
{
    let ghost gitems = items@.map_values(|x: RequestData| x@);
    let total = items.len();
    let page_n: usize = match page {
        None => 1,
        Some(p) => if p < 1 {
            1
        } else {
            p
        },
    };
    let ps: usize = {
        let raw = match page_size {
            None => DEFAULT_PAGE_SIZE,
            Some(s) => s,
        };
        if raw > MAX_PAGE_SIZE {
            MAX_PAGE_SIZE
        } else if raw < 1 {
            1
        } else {
            raw
        }
    };
    assert(page_n as int == spec_page(page));
    assert(ps as int == spec_page_size(page_size));
    proof {
        lemma_total_pages_bounds(total as int, ps as int);
    }
    let total_pages = total / ps + (if total % ps != 0 {
        1usize
    } else {
        0usize
    });
    let mut out: Vec<RequestData> = Vec::new();
    if page_n <= total_pages {
        proof {
            lemma_page_in_range_starts_before_end(total as int, ps as int, page_n as int);
        }
        let start = (page_n - 1) * ps;
        let end = if total - start > ps {
            start + ps
        } else {
            total
        };
        let mut k = start;
        while k < end
            invariant
                start <= k <= end <= total,
                total == items@.len(),
                gitems == items@.map_values(|x: RequestData| x@),
                out@.len() == k - start,
                forall|i: int| 0 <= i < out@.len() ==> out@[i]@ == gitems[start + i],
            decreases end - k,
        {
            out.push(items[k].clone());
            k = k + 1;
        }
        assert(out@.map_values(|x: RequestData| x@) =~= gitems.subrange(
            start as int,
            end as int,
        ));
    } else {
        proof {
            lemma_page_past_end_starts_past_total(total as int, ps as int, page_n as int);
            assert(out@.map_values(|x: RequestData| x@) =~= Seq::<RecordModel>::empty());
        }
    }
    let r = PaginatedResponse { requests: out, total, page: page_n, page_size: ps, total_pages };
    proof {
        assert(r@ =~= spec_paginate(gitems, page, page_size));
    }
    r
}

/// `total_pages` never exceeds `total`, and the ceiling-division formula
/// stays within machine bounds.
proof fn lemma_total_pages_bounds(total: int, ps: int)
    requires
        total >= 0,
        1 <= ps,
    ensures
        spec_total_pages(total, ps) <= total,
        total == 0 ==> spec_total_pages(total, ps) == 0,
        spec_total_pages(total, ps) >= 0,
{
    let q = total / ps;
    let r = total % ps;
    vstd::arithmetic::div_mod::lemma_fundamental_div_mod(total, ps);
    vstd::arithmetic::div_mod::lemma_mod_bound(total, ps);
    vstd::arithmetic::div_mod::lemma_div_pos_is_pos(total, ps);
    if r == 0 {
        assert(total == ps * q);
        assert(q <= total) by (nonlinear_arith)
            requires
                total == ps * q,
                ps >= 1,
                q >= 0,
        ;
    } else {
        assert(total == ps * q + r);
        assert(q + 1 <= total) by (nonlinear_arith)
            requires
                total == ps * q + r,
                ps >= 1,
                q >= 0,
                r >= 1,
        ;
    }
}

/// A page at or before `total_pages` starts strictly before `total`.
proof fn lemma_page_in_range_starts_before_end(total: int, ps: int, p: int)
    requires
        total >= 0,
        1 <= ps,
        1 <= p <= spec_total_pages(total, ps),
    ensures
        (p - 1) * ps < total,
        (p - 1) * ps >= 0,
{
    let q = total / ps;
    let r = total % ps;
    vstd::arithmetic::div_mod::lemma_fundamental_div_mod(total, ps);
    vstd::arithmetic::div_mod::lemma_mod_bound(total, ps);
    vstd::arithmetic::div_mod::lemma_div_pos_is_pos(total, ps);
    if r == 0 {
        assert(p - 1 <= q - 1);
        vstd::arithmetic::mul::lemma_mul_inequality(p - 1, q - 1, ps);
        assert((q - 1) * ps < total) by (nonlinear_arith)
            requires
                total == ps * q,
                ps >= 1,
        ;
    } else {
        assert(p - 1 <= q);
        vstd::arithmetic::mul::lemma_mul_inequality(p - 1, q, ps);
        assert(q * ps < total) by (nonlinear_arith)
            requires
                total == ps * q + r,
                r >= 1,
        ;
    }
    vstd::arithmetic::mul::lemma_mul_nonnegative(p - 1, ps);
}

/// A page past `total_pages` starts at or past `total`.
proof fn lemma_page_past_end_starts_past_total(total: int, ps: int, p: int)
    requires
        total >= 0,
        1 <= ps,
        p > spec_total_pages(total, ps),
        p >= 1,
    ensures
        (p - 1) * ps >= total,
{
    let q = total / ps;
    let r = total % ps;
    vstd::arithmetic::div_mod::lemma_fundamental_div_mod(total, ps);
    vstd::arithmetic::div_mod::lemma_mod_bound(total, ps);
    vstd::arithmetic::div_mod::lemma_div_pos_is_pos(total, ps);
    if r == 0 {
        assert(p - 1 >= q);
        vstd::arithmetic::mul::lemma_mul_inequality(q, p - 1, ps);
        assert(q * ps >= total) by (nonlinear_arith)
            requires
                total == ps * q,
        ;
    } else {
        assert(p - 1 >= q + 1);
        vstd::arithmetic::mul::lemma_mul_inequality(q + 1, p - 1, ps);
        assert((q + 1) * ps >= total) by (nonlinear_arith)
            requires
                total == ps * q + r,
                r < ps,
        ;
    }
}

} // verus!
