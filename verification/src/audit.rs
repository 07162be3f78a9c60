//! Site audits: the target, crawl limits and history page size that an audit
//! request is held to.

use vstd::prelude::*;

use crate::errors::{api_error, ApiError};
use crate::text::{trim, trimmed};

verus! {

/// Pages crawled when the request names no limit.
pub const DEFAULT_MAX_PAGES: usize = 25;
/// Request timeout in milliseconds when the request names none.
pub const DEFAULT_TIMEOUT_MS: u64 = 10_000;

/// An audit request.
#[derive(Debug)]
pub struct AuditRequest {
    /// URL, sitemap URL, `file://` URL, or local HTML fixture path.
    pub target: String,
    pub max_pages: Option<usize>,
    pub timeout_ms: Option<u64>,
    /// CI-gate thresholds (`low`/`medium`/`high` or rule ids).
    pub fail_on: Vec<String>,
}

/// The target must not be blank: 400 `invalid_target`.
pub fn check_target(req: &AuditRequest) -> (r: Result<(), ApiError>)
    ensures
        r is Ok <==> trim(req.target@).len() > 0,
        r matches Err(e) ==> e.status == 400 && e.error@ == "invalid_target"@
            && e.message@ == "`target` must not be empty"@,
{
    if trimmed(req.target.as_str()).len() == 0 {
        return Err(api_error(400, "invalid_target", "`target` must not be empty"));
    }
    Ok(())
}

/// The crawl limits: at most 25 pages by default, clamped into [1, 200], and
/// a timeout of 10 s by default, clamped into [1 s, 60 s] (in milliseconds).
pub fn audit_limits(req: &AuditRequest) -> (r: (usize, u64))
    ensures
        r.0 == (match req.max_pages {
            None => DEFAULT_MAX_PAGES as int,
            Some(p) => if p < 1 { 1 } else if p > 200 { 200 } else { p as int },
        }),
        r.1 == (match req.timeout_ms {
            None => DEFAULT_TIMEOUT_MS as int,
            Some(t) => if t < 1_000 { 1_000 } else if t > 60_000 { 60_000 } else { t as int },
        }),
{
    let p = match req.max_pages {
        Some(p) => p,
        None => DEFAULT_MAX_PAGES,
    };
    let pages = if p < 1 {
        1
    } else if p > 200 {
        200
    } else {
        p
    };
    let t = match req.timeout_ms {
        Some(t) => t,
        None => DEFAULT_TIMEOUT_MS,
    };
    let timeout = if t < 1_000 {
        1_000
    } else if t > 60_000 {
        60_000
    } else {
        t
    };
    (pages, timeout)
}

/// Whether the report is gated: only when thresholds were given.
pub fn gates_report(req: &AuditRequest) -> (r: bool)
    ensures
        r == (req.fail_on@.len() > 0),
{
    req.fail_on.len() > 0
}

/// 502 when the crawl of the target failed.
pub fn audit_failed() -> (e: ApiError)
    ensures
        e.status == 502,
        e.error@ == "audit_failed"@,
        e.message@ == "audit crawl failed for the requested target"@,
{
    api_error(502, "audit_failed", "audit crawl failed for the requested target")
}

/// Size of a page of audit history: 50 by default, clamped into [1, 200].
pub fn runs_limit(requested: Option<i64>) -> (l: i64)
    ensures
        l == (match requested {
            None => 50,
            Some(r) => if r < 1 { 1 } else if r > 200 { 200 } else { r as int },
        }),
{
    let r = match requested {
        Some(r) => r,
        None => 50,
    };
    if r < 1 {
        1
    } else if r > 200 {
        200
    } else {
        r
    }
}

} // verus!
