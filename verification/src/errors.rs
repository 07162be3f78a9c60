//! The error answer of an API endpoint: HTTP status, machine-readable code and
//! human-readable message (`{"error": code, "message": message}` on the wire).

use vstd::prelude::*;

verus! {

#[derive(Debug, Clone)]
pub struct ApiError {
    pub status: u16,
    pub error: String,
    pub message: String,
}

/// An error answer as a triple: status, code and message.
pub open spec fn error_view(e: ApiError) -> (u16, Seq<char>, Seq<char>) {
    (e.status, e.error@, e.message@)
}

/// An [`ApiError`] with the given status, code and message.
pub fn api_error(status: u16, error: &str, message: &str) -> (e: ApiError)
    ensures
        e.status == status,
        e.error@ == error@,
        e.message@ == message@,
{
    ApiError { status, error: error.to_owned(), message: message.to_owned() }
}

/// An [`ApiError`] whose message was assembled at run time.
pub fn api_error_msg(status: u16, error: &str, message: String) -> (e: ApiError)
    ensures
        e.status == status,
        e.error@ == error@,
        e.message@ == message@,
{
    ApiError { status, error: error.to_owned(), message }
}

/// An error answer that carries only a machine-readable code
/// (`{"error": code}` on the wire).
#[derive(Debug, Clone)]
pub struct StatusError {
    pub status: u16,
    pub error: String,
}

/// A [`StatusError`] with the given status and code.
pub fn status_error(status: u16, error: &str) -> (e: StatusError)
    ensures
        e.status == status,
        e.error@ == error@,
{
    StatusError { status, error: error.to_owned() }
}

} // verus!
