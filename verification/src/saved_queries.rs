//! Saved event queries: request types, the paging of their listing, and the
//! outcomes that the handlers answer.
use vstd::prelude::*;

use crate::error::{AppError, ErrorKind};

verus! {

/// Paging of an event query: the page to return and its size.
#[derive(Debug)]
pub struct PaginationParams {
    pub page: Option<i64>,
    pub limit: Option<i64>,
}

/// Request to store a named event query.
#[derive(Debug)]
pub struct CreateSavedQueryRequest {
    pub name: String,
    pub description: Option<String>,
    pub query_params: PaginationParams,
}

/// Request to change a stored query; absent fields stay as they are.
#[derive(Debug)]
pub struct UpdateSavedQueryRequest {
    pub name: Option<String>,
    pub description: Option<String>,
    pub query_params: Option<PaginationParams>,
}

/// Paging of the listing of stored queries.
#[derive(Debug)]
pub struct ListSavedQueriesParams {
    pub page: Option<i64>,
    pub limit: Option<i64>,
}

/// Smallest page size.
pub const MIN_PAGE_SIZE: i64 = 1;

/// Largest page size.
pub const MAX_PAGE_SIZE: i64 = 100;

/// Page size when none is requested.
pub const DEFAULT_PAGE_SIZE: i64 = 20;

/// The page actually served: the requested one (1 by default), at least 1.
pub open spec fn resolved_page(page: Option<i64>) -> i64 {
    let p = match page {
        Some(p) => p,
        None => 1,
    };
    if p >= 1 {
        p
    } else {
        1
    }
}

/// The page size actually served: the requested one (`DEFAULT_PAGE_SIZE` by
/// default) clamped to `MIN_PAGE_SIZE..=MAX_PAGE_SIZE`.
pub open spec fn resolved_limit(limit: Option<i64>) -> i64 {
    let l = match limit {
        Some(l) => l,
        None => DEFAULT_PAGE_SIZE,
    };
    if l < MIN_PAGE_SIZE {
        MIN_PAGE_SIZE
    } else if l > MAX_PAGE_SIZE {
        MAX_PAGE_SIZE
    } else {
        l
    }
}

/// The number of rows skipped before the served page.
pub open spec fn resolved_offset(page: Option<i64>, limit: Option<i64>) -> int {
    (resolved_page(page) - 1) * resolved_limit(limit)
}

/// The offset fits in an `i64`, so computing it does not overflow.
pub open spec fn offset_fits(page: Option<i64>, limit: Option<i64>) -> bool {
    resolved_offset(page, limit) <= i64::MAX
}

fn page_of(page: Option<i64>) -> (p: i64)
    ensures
        p == resolved_page(page),
        page is Some && page->0 >= 1 ==> p == page->0,
        p >= 1,
{
    let p = match page {
        Some(p) => p,
        None => 1,
    };
    if p >= 1 {
        p
    } else {
        1
    }
}

fn limit_of(limit: Option<i64>) -> (l: i64)
    ensures
        l == resolved_limit(limit),
{
    let l = match limit {
        Some(l) => l,
        None => DEFAULT_PAGE_SIZE,
    };
    if l < MIN_PAGE_SIZE {
        MIN_PAGE_SIZE
    } else if l > MAX_PAGE_SIZE {
        MAX_PAGE_SIZE
    } else {
        l
    }
}

fn offset_of(page: Option<i64>, limit: Option<i64>) -> (o: i64)
    requires
        offset_fits(page, limit),
    ensures
        o == resolved_offset(page, limit),
{
    let p = page_of(page);
    let l = limit_of(limit);
    assert(0 <= (p - 1) * l) by (nonlinear_arith)
        requires
            p >= 1,
            l >= 1,
    ;
    (p - 1) * l
}

/// Whether the offset of the page fits in an `i64`: callers that cannot
/// prove it test it here before asking for the offset.
pub fn offset_fits_values(page: Option<i64>, limit: Option<i64>) -> (b: bool)
    ensures
        b == offset_fits(page, limit),
{
    let p = page_of(page);
    let l = limit_of(limit);
    (p - 1).checked_mul(l).is_some()
}

impl PaginationParams {
    /// The page served: the requested one, at least 1; 1 by default.
    pub fn page(&self) -> (p: i64)
        ensures
            p == resolved_page(self.page),
            p >= 1,
            self.page is Some && self.page->0 >= 1 ==> p == self.page->0,
            self.page is Some && self.page->0 < 1 ==> p == 1,
            self.page is None ==> p == 1,
    {
        page_of(self.page)
    }

    /// The page size served: the requested one clamped to 1..=100; 20 by default.
    pub fn limit(&self) -> (l: i64)
        ensures
            l == resolved_limit(self.limit),
            MIN_PAGE_SIZE <= l <= MAX_PAGE_SIZE,
            self.limit is Some && MIN_PAGE_SIZE <= self.limit->0 <= MAX_PAGE_SIZE ==> l == self.limit->0,
            self.limit is None ==> l == DEFAULT_PAGE_SIZE,
            self.limit is Some && self.limit->0 < MIN_PAGE_SIZE ==> l == MIN_PAGE_SIZE,
            self.limit is Some && self.limit->0 > MAX_PAGE_SIZE ==> l == MAX_PAGE_SIZE,
    {
        limit_of(self.limit)
    }

    /// The rows skipped before the served page: `(page - 1) * limit`.
    pub fn offset(&self) -> (o: i64)
        requires
            offset_fits(self.page, self.limit),
        ensures
            o == resolved_offset(self.page, self.limit),
            o >= 0,
            o == (resolved_page(self.page) - 1) * resolved_limit(self.limit),
            self.page is Some && self.page->0 >= 1 ==> o == (self.page->0 - 1) * resolved_limit(
                self.limit,
            ),
    {
        let o = offset_of(self.page, self.limit);
        proof {
            lemma_offset_nonnegative(self.page, self.limit);
        }
        o
    }
}

/// The page, page size and offset of a listing of stored queries.
pub fn list_window(params: &ListSavedQueriesParams) -> (w: (i64, i64, i64))
    requires
        offset_fits(params.page, params.limit),
    ensures
        w.0 == resolved_page(params.page),
        w.1 == resolved_limit(params.limit),
        w.2 == resolved_offset(params.page, params.limit),
        params.page is Some && params.page->0 >= 1 ==> w.0 == params.page->0,
        params.page is None ==> w.0 == 1,
        params.limit is Some && MIN_PAGE_SIZE <= params.limit->0 <= MAX_PAGE_SIZE ==> w.1 == params.limit->0,
        w.2 == (w.0 - 1) * w.1,
{
    (page_of(params.page), limit_of(params.limit), offset_of(params.page, params.limit))
}

/// Whether rows remain after the page that ends at `offset + limit`, of
/// `total` rows.
pub fn has_more(offset: i64, limit: i64, total: i64) -> (b: bool)
    requires
        offset + limit <= i64::MAX,
        offset + limit >= i64::MIN,
    ensures
        b == (offset + limit < total),
{
    offset + limit < total
}

/// Law: the offset is never negative.
pub proof fn lemma_offset_nonnegative(page: Option<i64>, limit: Option<i64>)
    ensures
        resolved_offset(page, limit) >= 0,
{
    let p = resolved_page(page);
    let l = resolved_limit(limit);
    assert(0 <= (p - 1) * l) by (nonlinear_arith)
        requires
            p >= 1,
            l >= 1,
    ;
}

/// Law: a requested page of at least 1 is served as it is, however large,
/// and a requested size within bounds is kept; the offset skips the rows of
/// all earlier pages.
pub proof fn lemma_requested_paging_served(page: i64, limit: i64)
    requires
        page >= 1,
        MIN_PAGE_SIZE <= limit <= MAX_PAGE_SIZE,
    ensures
        resolved_page(Some(page)) == page,
        resolved_limit(Some(limit)) == limit,
        resolved_offset(Some(page), Some(limit)) == (page - 1) * limit,
{
}

/// Law: without a page and a size, the first page of 20 rows is served.
pub proof fn lemma_paging_defaults()
    ensures
        resolved_page(None) == 1,
        resolved_limit(None) == DEFAULT_PAGE_SIZE,
        resolved_offset(None, None) == 0,
{
}

/// Law: page 0 and every negative page are served as page 1.
pub proof fn lemma_low_pages_serve_first(page: i64, limit: Option<i64>)
    requires
        page <= 1,
    ensures
        resolved_page(Some(page)) == 1,
        resolved_offset(Some(page), limit) == resolved_offset(Some(1), limit),
{
}

/// Law: the served page and size are already valid: asking for them again
/// serves the same page, size and offset.
pub proof fn lemma_paging_idempotent(page: Option<i64>, limit: Option<i64>)
    ensures
        resolved_page(Some(resolved_page(page))) == resolved_page(page),
        resolved_limit(Some(resolved_limit(limit))) == resolved_limit(limit),
        resolved_offset(Some(resolved_page(page)), Some(resolved_limit(limit))) == resolved_offset(
            page,
            limit,
        ),
{
}

// ---------------------------------------------------------------------------
// Outcomes of the handlers
// ---------------------------------------------------------------------------

/// The message of every "no such stored query" answer.
pub open spec fn not_found_message() -> Seq<char> {
    "Saved query not found"@
}

/// The stored query that a lookup found, or the not-found error.
pub fn found_or_not_found<T>(row: Option<T>) -> (res: Result<T, AppError>)
    ensures
        row is Some <==> res is Ok,
        res matches Ok(v) ==> row == Some(v),
        res matches Err(e) ==> e.spec_parts() == (ErrorKind::NotFound, not_found_message()),
{
    match row {
        Some(v) => Ok(v),
        None => Err(AppError::NotFound("Saved query not found".to_owned())),
    }
}

/// The answer to a deletion that removed `rows_affected` rows: done when a
/// row was removed, not found otherwise.
pub fn deletion_outcome(rows_affected: u64) -> (res: Result<(), AppError>)
    ensures
        res is Ok <==> rows_affected > 0,
        res matches Err(e) ==> e.spec_parts() == (ErrorKind::NotFound, not_found_message()),
{
    if rows_affected == 0 {
        return Err(AppError::NotFound("Saved query not found".to_owned()));
    }
    Ok(())
}

/// The error for a failed insertion of a stored query: a taken name (a
/// violated unique constraint) is the client's error, anything else the
/// service's, described by `detail`.
pub fn creation_failure(name_taken: bool, detail: &str) -> (e: AppError)
    ensures
        name_taken ==> e.spec_parts() == (ErrorKind::Validation, "Query name already exists"@),
        !name_taken ==> e.spec_parts() == (
            ErrorKind::Internal,
            "Failed to create saved query: "@ + detail@,
        ),
{
    if name_taken {
        AppError::Validation("Query name already exists".to_owned())
    } else {
        let mut m = "Failed to create saved query: ".to_owned();
        m.append(detail);
        AppError::Internal(m)
    }
}

/// An internal error: what failed, a colon, and why.
pub fn internal_failure(context: &str, detail: &str) -> (e: AppError)
    ensures
        e.spec_parts() == (ErrorKind::Internal, context@ + ": "@ + detail@),
{
    let mut m = context.to_owned();
    m.append(": ");
    m.append(detail);
    AppError::Internal(m)
}

/// A validation error: what was refused, a colon, and why.
pub fn validation_failure(context: &str, detail: &str) -> (e: AppError)
    ensures
        e.spec_parts() == (ErrorKind::Validation, context@ + ": "@ + detail@),
{
    let mut m = context.to_owned();
    m.append(": ");
    m.append(detail);
    AppError::Validation(m)
}

} // verus!
