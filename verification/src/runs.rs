//! The run list: the page a listing of a project's runs asks for.

use vstd::prelude::*;

verus! {

/// Runs listed when the query names no limit.
pub const DEFAULT_RUN_LIMIT: i64 = 25;

/// The page of runs handed to the run listing.
#[derive(Debug, Clone, Copy, PartialEq, Eq, Structural)]
pub struct RunListParams {
    pub limit: i64,
    pub offset: i64,
}

/// The page a `GET /v1/runs` query asks for: its `limit`, or 25, and its
/// `offset`, or 0.
pub fn run_list_params(limit: Option<i64>, offset: Option<i64>) -> (p: RunListParams)
    ensures
        p.limit == match limit {
            Some(l) => l,
            None => DEFAULT_RUN_LIMIT,
        },
        p.offset == match offset {
            Some(o) => o,
            None => 0,
        },
{
    RunListParams {
        limit: match limit {
            Some(l) => l,
            None => DEFAULT_RUN_LIMIT,
        },
        offset: match offset {
            Some(o) => o,
            None => 0,
        },
    }
}

} // verus!
