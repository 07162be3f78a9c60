//! Portal grants: a brand an operator may see through the customer portal,
//! and the answers of granting, revoking and reading that scope.

use vstd::prelude::*;

use crate::errors::{api_error, ApiError};
use crate::recommendations::{format_uuid, uuid_text};

verus! {

/// Body of a portal grant.
#[derive(Debug)]
pub struct GrantPortalRequest {
    pub operator_id: u128,
}

/// Answer of a portal grant.
#[derive(Debug)]
pub struct PortalGrantResponse {
    pub org_id: u128,
    pub brand_id: u128,
    pub operator_id: u128,
    pub is_portal: bool,
}

/// The portal scope of an operator.
#[derive(Debug)]
pub struct PortalScopeResponse {
    pub operator_id: u128,
    pub portal_brand_id: Option<u128>,
    pub is_portal: bool,
}

/// The actor an audit event of a grant or revocation names: the caller's
/// UUID, or `system`.
pub fn actor_login(caller_id: Option<u128>) -> (a: String)
    ensures
        a@ == (match caller_id {
            Some(id) => uuid_text(id),
            None => "system"@,
        }),
{
    match caller_id {
        Some(id) => format_uuid(id),
        None => "system".to_string(),
    }
}

/// The answer of a recorded grant.
pub fn portal_granted(org_id: u128, brand_id: u128, body: &GrantPortalRequest) -> (r: PortalGrantResponse)
    ensures
        r.org_id == org_id,
        r.brand_id == brand_id,
        r.operator_id == body.operator_id,
        r.is_portal,
{
    PortalGrantResponse { org_id, brand_id, operator_id: body.operator_id, is_portal: true }
}

/// The answer of a revocation: 404 when there was no such grant.
pub fn portal_revocation(removed: bool) -> (r: Result<(), ApiError>)
    ensures
        r is Ok <==> removed,
        r matches Err(e) ==> e.status == 404 && e.error@ == "portal_grant_not_found"@
            && e.message@ == "no portal grant found for this operator and brand"@,
{
    if !removed {
        return Err(api_error(404, "portal_grant_not_found", "no portal grant found for this operator and brand"));
    }
    Ok(())
}

/// The portal scope of `operator_id`, which requires an operator session
/// (401 `unauthenticated` otherwise).
pub fn portal_scope(operator_id: Option<u128>, portal_brand: Option<u128>) -> (r: Result<PortalScopeResponse, ApiError>)
    ensures
        match operator_id {
            Some(op) => r matches Ok(s) && s.operator_id == op && s.portal_brand_id == portal_brand
                && s.is_portal == (portal_brand is Some),
            None => r matches Err(e) && e.status == 401 && e.error@ == "unauthenticated"@
                && e.message@ == "operator identity required"@,
        },
{
    match operator_id {
        Some(op) => Ok(PortalScopeResponse { operator_id: op, portal_brand_id: portal_brand, is_portal: portal_brand.is_some() }),
        None => Err(api_error(401, "unauthenticated", "operator identity required")),
    }
}

} // verus!
