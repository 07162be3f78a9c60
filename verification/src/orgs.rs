//! Organisations: creation outcomes, which brands a caller may list, and the
//! audit-log query.

use vstd::prelude::*;

use crate::errors::{api_error, api_error_msg, ApiError};
use crate::text::{contains_chars, contains_seq, chars_of};

verus! {

/// Body of a new organisation.
#[derive(Debug)]
pub struct CreateOrgRequest {
    pub slug: String,
    pub name: String,
    pub region: Option<String>,
}

/// A failed creation: 409 `slug_conflict` when the storage failure reports a
/// unique or duplicate violation, 500 `internal_error` with the failure
/// otherwise.
pub fn creation_failure(message: String) -> (e: ApiError)
    ensures
        (contains_seq(message@, "unique"@) || contains_seq(message@, "duplicate"@)) ==> (e.status == 409
            && e.error@ == "slug_conflict"@ && e.message@ == "an organization with this slug already exists"@),
        !(contains_seq(message@, "unique"@) || contains_seq(message@, "duplicate"@)) ==> (e.status == 500
            && e.error@ == "internal_error"@ && e.message@ == message@),
{
    let m = chars_of(message.as_str());
    let unique = chars_of("unique");
    let duplicate = chars_of("duplicate");
    if contains_chars(&m, &unique) || contains_chars(&m, &duplicate) {
        api_error(409, "slug_conflict", "an organization with this slug already exists")
    } else {
        api_error_msg(500, "internal_error", message)
    }
}

/// The actor an audit event names: the operator's, or `system`.
pub fn audit_actor(actor: Option<String>) -> (a: String)
    ensures
        a@ == (match actor {
            Some(s) => s@,
            None => "system"@,
        }),
{
    match actor {
        Some(s) => s,
        None => "system".to_string(),
    }
}

/// 404 for an organisation that does not exist.
pub fn org_not_found() -> (e: ApiError)
    ensures
        e.status == 404,
        e.error@ == "org_not_found"@,
        e.message@ == "organization not found"@,
{
    api_error(404, "org_not_found", "organization not found")
}

/// What a caller's role says of brand grants.
#[derive(Debug, Clone, Copy)]
pub struct RoleGrants {
    /// The role sees every brand of the organisation.
    pub bypasses_grants: bool,
    /// The role sees only the brands granted to the operator.
    pub requires_grant: bool,
}

/// Which brands of an organisation a caller may list.
#[derive(Debug, Clone, Copy, PartialEq, Eq, Structural)]
pub enum BrandScope {
    /// Every brand.
    All,
    /// The brands granted to this operator.
    GrantedTo(u128),
    /// None.
    Nothing,
}

/// The brands a caller may list: all of them without an operator context
/// (API-key mode) or for a role that bypasses grants, those granted to the
/// operator for a role that requires grants, none otherwise.
pub fn brand_scope(role: Option<RoleGrants>, operator_id: Option<u128>) -> (s: BrandScope)
    ensures
        s == (match (role, operator_id) {
            (Some(r), Some(op)) => if r.bypasses_grants {
                BrandScope::All
            } else if r.requires_grant {
                BrandScope::GrantedTo(op)
            } else {
                BrandScope::Nothing
            },
            _ => BrandScope::All,
        }),
{
    match (role, operator_id) {
        (Some(r), Some(op)) => {
            if r.bypasses_grants {
                BrandScope::All
            } else if r.requires_grant {
                BrandScope::GrantedTo(op)
            } else {
                BrandScope::Nothing
            }
        },
        _ => BrandScope::All,
    }
}

/// Query of an organisation's audit log.
#[derive(Debug)]
pub struct AuditLogQuery {
    /// Exact action key (e.g. `org.create`).
    pub action: Option<String>,
    /// Actor login.
    pub actor: Option<String>,
    /// Most events listed (default 200, capped at 1000).
    pub limit: Option<i64>,
}

/// The number of events to list: 200 by default, clamped into [1, 1000].
pub fn audit_log_limit(q: &AuditLogQuery) -> (l: i64)
    ensures
        l == (match q.limit {
            None => 200,
            Some(r) => if r < 1 { 1 } else if r > 1000 { 1000 } else { r as int },
        }),
{
    let r = match q.limit {
        Some(r) => r,
        None => 200,
    };
    if r < 1 {
        1
    } else if r > 1000 {
        1000
    } else {
        r
    }
}

} // verus!
