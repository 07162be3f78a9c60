//! Data-subject requests (access exports and erasures) and organisation
//! offboarding: which requests are accepted, which stored request an action
//! applies to, and the refusals of the offboarding lifecycle.

use vstd::prelude::*;

use crate::errors::{status_error, StatusError};
use crate::text::{concat3, str_eq};

verus! {

/// Body of a new data-subject request.
#[derive(Debug)]
pub struct CreateDsarBody {
    /// `access` or `erasure`.
    pub kind: String,
    pub subject_email: String,
    pub legal_basis: String,
}

/// Body of an offboarding request.
#[derive(Debug)]
pub struct InitiateOffboardBody {
    pub stripe_subscription_id: Option<String>,
    pub stripe_customer_id: Option<String>,
    /// Export grace window in days (default: 30).
    pub export_grace_days: Option<i64>,
}

/// What the handlers read of a stored data-subject request.
#[derive(Debug)]
pub struct DsarRequestSummary {
    pub id: u128,
    pub kind: String,
    pub subject_email: String,
    pub legal_basis: String,
}

/// The kinds of data-subject request.
#[derive(Debug, Clone, Copy, PartialEq, Eq, Structural)]
pub enum DsarKind {
    Access,
    Erasure,
}

/// Wire name of a request kind.
pub open spec fn dsar_kind_name(k: DsarKind) -> Seq<char> {
    match k {
        DsarKind::Access => "access"@,
        DsarKind::Erasure => "erasure"@,
    }
}

/// The kind a request names: 422 unless it is `access` or `erasure`.
pub fn check_dsar_kind(body: &CreateDsarBody) -> (r: Result<DsarKind, StatusError>)
    ensures
        match r {
            Ok(k) => body.kind@ == dsar_kind_name(k),
            Err(e) => body.kind@ != "access"@ && body.kind@ != "erasure"@ && e.status == 422
                && e.error@ == "kind must be 'access' or 'erasure'"@,
        },
{
    if str_eq(body.kind.as_str(), "access") {
        Ok(DsarKind::Access)
    } else if str_eq(body.kind.as_str(), "erasure") {
        Ok(DsarKind::Erasure)
    } else {
        Err(status_error(422, "kind must be 'access' or 'erasure'"))
    }
}

/// The request an execute or export action applies to: the first listed
/// request with id `request_id` (404 `DSAR request not found` when none),
/// which must be of kind `kind` (422 otherwise: only erasures execute, only
/// access requests export).
pub fn select_dsar_request(
    requests: &Vec<DsarRequestSummary>,
    request_id: u128,
    kind: DsarKind,
) -> (r: Result<usize, StatusError>)
    ensures
        match r {
            Ok(i) => {
                &&& i < requests@.len()
                &&& requests@[i as int].id == request_id
                &&& forall|j: int| 0 <= j < i ==> (#[trigger] requests@[j]).id != request_id
                &&& requests@[i as int].kind@ == dsar_kind_name(kind)
            },
            Err(e) => if forall|j: int| 0 <= j < requests@.len() ==> (#[trigger] requests@[j]).id != request_id {
                e.status == 404 && e.error@ == "DSAR request not found"@
            } else {
                exists|i: int| #![trigger requests@[i]] 0 <= i < requests@.len() && requests@[i].id == request_id
                    && (forall|j: int| 0 <= j < i ==> (#[trigger] requests@[j]).id != request_id)
                    && requests@[i].kind@ != dsar_kind_name(kind)
                    && e.status == 422 && e.error@ == (match kind {
                        DsarKind::Erasure => "only erasure requests can be executed"@,
                        DsarKind::Access => "only access requests can produce exports"@,
                    })
            },
        },
{
    let mut i: usize = 0;
    while i < requests.len()
        invariant
            i <= requests@.len(),
            forall|j: int| 0 <= j < i ==> (#[trigger] requests@[j]).id != request_id,
        decreases requests@.len() - i,
    {
        if requests[i].id == request_id {
            let wanted = match kind {
                DsarKind::Access => "access",
                DsarKind::Erasure => "erasure",
            };
            if str_eq(requests[i].kind.as_str(), wanted) {
                return Ok(i);
            }
            return match kind {
                DsarKind::Erasure => Err(status_error(422, "only erasure requests can be executed")),
                DsarKind::Access => Err(status_error(422, "only access requests can produce exports")),
            };
        }
        i = i + 1;
    }
    Err(status_error(404, "DSAR request not found"))
}

/// The export grace window in days: the requested one or 30, clamped into
/// [1, 90].
pub fn export_grace_days(body: &InitiateOffboardBody) -> (d: i64)
    ensures
        d == (match body.export_grace_days {
            None => 30,
            Some(g) => if g < 1 { 1 } else if g > 90 { 90 } else { g as int },
        }),
        1 <= d <= 90,
{
    let g = match body.export_grace_days {
        Some(g) => g,
        None => 30,
    };
    if g < 1 {
        1
    } else if g > 90 {
        90
    } else {
        g
    }
}

/// 500 carrying a storage failure: `storage: <description>`.
pub fn storage_failure(description: &str) -> (e: StatusError)
    ensures
        e.status == 500,
        e.error@ == "storage: "@ + description@,
{
    let error = concat3("storage: ", description, "");
    proof {
        reveal_strlit("");
    }
    StatusError { status: 500, error }
}

/// The refusal of a caller without the capability, with the refusal's status.
pub fn forbidden(status: u16) -> (e: StatusError)
    ensures
        e.status == status,
        e.error@ == "forbidden"@,
{
    status_error(status, "forbidden")
}

/// 404 when the organisation has no offboarding record.
pub fn offboarding_not_found() -> (e: StatusError)
    ensures
        e.status == 404,
        e.error@ == "no offboarding record for this org"@,
{
    status_error(404, "no offboarding record for this org")
}

/// The answer of recording the crypto-shred: 204 when the record advanced,
/// 409 when it was not pending the shred or is under legal hold.
pub fn shred_result(advanced: bool) -> (r: Result<u16, StatusError>)
    ensures
        advanced ==> r == Ok::<u16, StatusError>(204),
        !advanced ==> (r matches Err(e) && e.status == 409
            && e.error@ == "offboarding not in pending_shred state or legal hold active"@),
{
    if !advanced {
        return Err(status_error(409, "offboarding not in pending_shred state or legal hold active"));
    }
    Ok(204)
}

/// The answer of confirming the billing teardown: 204 when the record
/// advanced, 409 when it was not shredded.
pub fn completion_result(advanced: bool) -> (r: Result<u16, StatusError>)
    ensures
        advanced ==> r == Ok::<u16, StatusError>(204),
        !advanced ==> (r matches Err(e) && e.status == 409 && e.error@ == "offboarding not in shredded state"@),
{
    if !advanced {
        return Err(status_error(409, "offboarding not in shredded state"));
    }
    Ok(204)
}

} // verus!
