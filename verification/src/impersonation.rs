//! Governed support impersonation: time-boxed grants that a support operator
//! takes on an organisation, and the answers of the grant endpoints.

use vstd::prelude::*;

use crate::errors::{status_error, StatusError};

verus! {

/// Longest grant the server issues, in hours.
pub const MAX_GRANT_HOURS: i64 = 4;

/// Grant length when the request names none, in minutes.
pub const DEFAULT_GRANT_MINUTES: i64 = 60;

/// Body of a grant request.
#[derive(Debug)]
pub struct CreateGrantBody {
    /// Why the support session is needed (kept in the audit trail).
    pub reason: String,
    /// Requested length in minutes; capped at `MAX_GRANT_HOURS` hours.
    pub duration_minutes: Option<i64>,
}

/// The grant length in minutes: the requested length, or the default, capped
/// at `MAX_GRANT_HOURS` hours.
pub open spec fn grant_minutes_of(requested: Option<i64>) -> int {
    let m: int = match requested {
        Some(m) => m as int,
        None => DEFAULT_GRANT_MINUTES as int,
    };
    if m < MAX_GRANT_HOURS * 60 {
        m
    } else {
        MAX_GRANT_HOURS * 60
    }
}

/// The length of the grant that `body` asks for.
pub fn grant_minutes(body: &CreateGrantBody) -> (m: i64)
    ensures
        m == grant_minutes_of(body.duration_minutes),
        m <= MAX_GRANT_HOURS * 60,
{
    let requested = match body.duration_minutes {
        Some(m) => m,
        None => DEFAULT_GRANT_MINUTES,
    };
    if requested < MAX_GRANT_HOURS * 60 {
        requested
    } else {
        MAX_GRANT_HOURS * 60
    }
}

/// The acting support operator, which grant and revoke require: 401
/// `operator identity required` when the session carries none.
pub fn require_operator_identity(operator_id: Option<u128>) -> (r: Result<u128, StatusError>)
    ensures
        match operator_id {
            Some(id) => r == Ok::<u128, StatusError>(id),
            None => r matches Err(e) && e.status == 401 && e.error@ == "operator identity required"@,
        },
{
    match operator_id {
        Some(id) => Ok(id),
        None => Err(status_error(401, "operator identity required")),
    }
}

/// The answer of a revocation: 204 when a live grant was revoked, 404 `grant
/// not found or already revoked` otherwise.
pub fn revocation_result(revoked: bool) -> (r: Result<u16, StatusError>)
    ensures
        revoked ==> r == Ok::<u16, StatusError>(204),
        !revoked ==> (r matches Err(e) && e.status == 404 && e.error@ == "grant not found or already revoked"@),
{
    if !revoked {
        return Err(status_error(404, "grant not found or already revoked"));
    }
    Ok(204)
}

} // verus!
