//! Account security of an operator: the answers of session and MFA
//! revocation.

use vstd::prelude::*;

use crate::errors::{status_error, StatusError};
use crate::impersonation::require_operator_identity;

verus! {

/// The operator the account endpoints act for: 401 `operator identity
/// required` when the session carries none.
pub fn operator_id_from_ctx(operator_id: Option<u128>) -> (r: Result<u128, StatusError>)
    ensures
        match operator_id {
            Some(id) => r == Ok::<u128, StatusError>(id),
            None => r matches Err(e) && e.status == 401 && e.error@ == "operator identity required"@,
        },
{
    require_operator_identity(operator_id)
}

/// The answer of revoking a session that updated `affected` rows: 204, or
/// 404 when the session was unknown or already revoked.
pub fn session_revocation(affected: u64) -> (r: Result<u16, StatusError>)
    ensures
        affected > 0 ==> r == Ok::<u16, StatusError>(204),
        affected == 0 ==> (r matches Err(e) && e.status == 404 && e.error@ == "session not found or already revoked"@),
{
    if affected == 0 {
        return Err(status_error(404, "session not found or already revoked"));
    }
    Ok(204)
}

/// The answer of revoking the MFA enrollment that updated `affected` rows:
/// 204, or 404 when there was no active enrollment.
pub fn mfa_revocation(affected: u64) -> (r: Result<u16, StatusError>)
    ensures
        affected > 0 ==> r == Ok::<u16, StatusError>(204),
        affected == 0 ==> (r matches Err(e) && e.status == 404 && e.error@ == "no active MFA enrollment found"@),
{
    if affected == 0 {
        return Err(status_error(404, "no active MFA enrollment found"));
    }
    Ok(204)
}

} // verus!
