//! Per-request project resolution: which project name a request names (an
//! explicit value, then the project header, the `default` sentinel naming
//! none), and the answer when no project resolves.

use vstd::prelude::*;

use crate::errors::{api_error, ApiError};
use crate::text::{ascii_lower, is_lit, lower_chars, string_of, trim, trimmed};

verus! {

/// The project header clients send.
pub const PROJECT_HEADER: &'static str = "X-Anseo-Project";

/// The sentinel that names no project, so the sole active project applies.
pub const DEFAULT_PROJECT_SENTINEL: &'static str = "default";

/// Why a request's project did not resolve.
#[derive(Debug, Clone, Copy, PartialEq, Eq, Structural)]
pub enum ResolveError {
    /// No project matched the precedence chain.
    NotFound,
}

/// A supplied value, trimmed, when not blank.
pub open spec fn supplied(v: Option<Seq<char>>) -> Option<Seq<char>> {
    match v {
        Some(s) => if trim(s).len() > 0 {
            Some(trim(s))
        } else {
            None
        },
        None => None,
    }
}

/// The project name a request names: the explicit value if supplied, else
/// the header value if supplied, both trimmed; none when that is the
/// `default` sentinel (in any ASCII case).
pub open spec fn named_project_spec(explicit: Option<Seq<char>>, header: Option<Seq<char>>) -> Option<Seq<char>> {
    let chosen = match supplied(explicit) {
        Some(s) => Some(s),
        None => supplied(header),
    };
    match chosen {
        Some(s) => if ascii_lower(s) == "default"@ {
            None
        } else {
            Some(s)
        },
        None => None,
    }
}

fn supplied_value(v: Option<&str>) -> (r: Option<Vec<char>>)
    ensures
        match r {
            Some(c) => supplied(
                match v {
                    Some(s) => Some(s@),
                    None => None,
                },
            ) == Some(c@),
            None => supplied(
                match v {
                    Some(s) => Some(s@),
                    None => None,
                },
            ) is None,
        },
{
    match v {
        Some(s) => {
            let t = trimmed(s);
            if t.len() > 0 {
                Some(t)
            } else {
                None
            }
        },
        None => None,
    }
}

/// The project name the request names, if any (see [`named_project_spec`]).
pub fn named_project(explicit: Option<&str>, header: Option<&str>) -> (r: Option<String>)
    ensures
        match r {
            Some(n) => named_project_spec(
                match explicit {
                    Some(s) => Some(s@),
                    None => None,
                },
                match header {
                    Some(s) => Some(s@),
                    None => None,
                },
            ) == Some(n@),
            None => named_project_spec(
                match explicit {
                    Some(s) => Some(s@),
                    None => None,
                },
                match header {
                    Some(s) => Some(s@),
                    None => None,
                },
            ) is None,
        },
{
    let chosen = match supplied_value(explicit) {
        Some(c) => Some(c),
        None => supplied_value(header),
    };
    match chosen {
        Some(c) => {
            let l = lower_chars(&c);
            if is_lit(&l, "default") {
                None
            } else {
                Some(string_of(&c))
            }
        },
        None => None,
    }
}

/// The project header value: the canonical header's, else the legacy
/// header's.
pub fn project_header_value(canonical: Option<String>, legacy: Option<String>) -> (r: Option<String>)
    ensures
        r == (match canonical {
            Some(c) => Some(c),
            None => legacy,
        }),
{
    match canonical {
        Some(c) => Some(c),
        None => legacy,
    }
}

/// A named project resolves only when a live row exists for it; without a
/// name, only when exactly one project is active.
pub fn resolution<T>(found: Option<T>) -> (r: Result<T, ResolveError>)
    ensures
        match found {
            Some(p) => r == Ok::<T, ResolveError>(p),
            None => r == Err::<T, ResolveError>(ResolveError::NotFound),
        },
{
    match found {
        Some(p) => Ok(p),
        None => Err(ResolveError::NotFound),
    }
}

/// 404 when no project resolves for a request.
pub fn project_not_resolved() -> (e: ApiError)
    ensures
        e.status == 404,
        e.error@ == "project_not_found"@,
        e.message@ == "no project resolved for this request (checked explicit value, X-Anseo-Project header, then the sole-active-project fallback)"@,
{
    api_error(
        404,
        "project_not_found",
        "no project resolved for this request (checked explicit value, X-Anseo-Project header, then the sole-active-project fallback)",
    )
}

} // verus!
