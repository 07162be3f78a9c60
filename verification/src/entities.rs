//! Entity registry: validating a registration, and the merge suggestion
//! raised when a domain is registered again under another name.

use vstd::prelude::*;

use crate::errors::{status_error, StatusError};
use crate::text::{string_of, trim, trimmed};

verus! {

/// Role of an entity registered without one.
pub fn default_role() -> (r: String)
    ensures
        r@ == "source"@,
{
    "source".to_string()
}

/// Body of an entity registration.
#[derive(Debug)]
pub struct CreateEntityRequest {
    pub domain: String,
    pub display_name: String,
    /// `source` when the request names none.
    pub role: String,
}

/// Raised when a registration collides with a domain registered under
/// another display name.
#[derive(Debug)]
pub struct MergeSuggestion {
    pub existing_name: String,
    pub requested_name: String,
    pub similarity_score: u8,
    /// The score falls in the review band, so a review entry was queued.
    pub queued_for_review: bool,
}

/// The display name and role a registration stores, trimmed: 400
/// `empty_display_name` when the display name is blank.
pub fn registration_fields(body: &CreateEntityRequest) -> (r: Result<(String, String), StatusError>)
    ensures
        match r {
            Ok((name, role)) => trim(body.display_name@).len() > 0 && name@ == trim(body.display_name@)
                && role@ == trim(body.role@),
            Err(e) => trim(body.display_name@).len() == 0 && e.status == 400 && e.error@ == "empty_display_name"@,
        },
{
    let name = trimmed(body.display_name.as_str());
    let role = trimmed(body.role.as_str());
    if name.len() == 0 {
        return Err(status_error(400, "empty_display_name"));
    }
    Ok((string_of(&name), string_of(&role)))
}

/// Whether a registration needs a merge suggestion: the domain was already
/// registered, under another display name.
pub fn needs_merge_suggestion(was_inserted: bool, existing_name: &str, requested_name: &str) -> (r: bool)
    ensures
        r == (!was_inserted && existing_name@ != requested_name@),
{
    !was_inserted && !crate::text::str_eq(existing_name, requested_name)
}

/// The merge suggestion for the similarity `score` of the two names: queued
/// for review when the score reaches the review threshold but not the
/// automatic-merge threshold.
pub fn merge_suggestion(
    existing_name: String,
    requested_name: String,
    score: u8,
    review_threshold: u8,
    auto_merge_threshold: u8,
) -> (m: MergeSuggestion)
    ensures
        m.existing_name == existing_name,
        m.requested_name == requested_name,
        m.similarity_score == score,
        m.queued_for_review == (review_threshold <= score && score < auto_merge_threshold),
{
    MergeSuggestion {
        existing_name,
        requested_name,
        similarity_score: score,
        queued_for_review: score >= review_threshold && score < auto_merge_threshold,
    }
}

/// The status of a registration: 201 when the entity is new, 200 when the
/// domain was already registered.
pub fn registration_status(was_inserted: bool) -> (s: u16)
    ensures
        s == (if was_inserted { 201u16 } else { 200u16 }),
{
    if was_inserted {
        201
    } else {
        200
    }
}

/// The statement every leaderboard answer carries.
pub fn leaderboard_statement() -> (s: &'static str)
    ensures
        s@ == "Rankings are based on measured data. Entities cannot influence their own rank."@,
{
    "Rankings are based on measured data. Entities cannot influence their own rank."
}

} // verus!
