//! Alert rules of the operations console: validation of new and updated
//! rules and the wire shape of a stored rule.

use vstd::prelude::*;

use crate::errors::{api_error, ApiError};
use crate::text::{str_eq, trim, trimmed};

verus! {

/// A stored alert rule.
#[derive(Debug)]
pub struct AlertRuleRecord {
    pub name: String,
    /// The condition expression.
    pub condition: String,
    pub target: String,
    pub channels: Vec<String>,
    pub status: String,
}

/// An alert rule on the wire.
#[derive(Debug)]
pub struct AlertRuleResponse {
    pub name: String,
    /// The condition expression (stored as `condition`).
    pub on: String,
    pub target: String,
    pub channels: Vec<String>,
    pub status: String,
    /// Fire count over the last seven days.
    pub fires: i64,
}

/// All alert rules.
#[derive(Debug)]
pub struct ListAlertRulesResponse {
    pub items: Vec<AlertRuleResponse>,
}

/// Body of a new rule.
#[derive(Debug)]
pub struct CreateAlertRuleBody {
    pub name: String,
    pub on: String,
    pub target: String,
    pub channels: Vec<String>,
}

/// Body of a status change.
#[derive(Debug)]
pub struct PatchAlertRuleBody {
    pub status: String,
}

/// Fire count of a rule. Deliveries carry no rule, so none can be
/// attributed yet and the count is 0.
pub fn fires_for_rule(name: &str) -> (n: i64)
    ensures
        n == 0,
{
    0
}

impl AlertRuleResponse {
    /// The wire shape of a stored rule with its fire count.
    pub fn from_record(r: AlertRuleRecord, fires: i64) -> (w: Self)
        ensures
            w.name == r.name,
            w.on == r.condition,
            w.target == r.target,
            w.channels == r.channels,
            w.status == r.status,
            w.fires == fires,
    {
        AlertRuleResponse {
            name: r.name,
            on: r.condition,
            target: r.target,
            channels: r.channels,
            status: r.status,
            fires,
        }
    }
}

/// A new rule needs a name: 400 `invalid_request` when it is blank.
pub fn check_rule_name(body: &CreateAlertRuleBody) -> (r: Result<(), ApiError>)
    ensures
        r is Ok <==> trim(body.name@).len() > 0,
        r matches Err(e) ==> e.status == 400 && e.error@ == "invalid_request"@ && e.message@ == "`name` is required"@,
{
    if trimmed(body.name.as_str()).len() == 0 {
        return Err(api_error(400, "invalid_request", "`name` is required"));
    }
    Ok(())
}

/// A status change must arm or mute: 400 `invalid_request` otherwise.
pub fn check_rule_status(body: &PatchAlertRuleBody) -> (r: Result<(), ApiError>)
    ensures
        r is Ok <==> (body.status@ == "armed"@ || body.status@ == "muted"@),
        r matches Err(e) ==> e.status == 400 && e.error@ == "invalid_request"@
            && e.message@ == "`status` must be 'armed' or 'muted'"@,
{
    if !str_eq(body.status.as_str(), "armed") && !str_eq(body.status.as_str(), "muted") {
        return Err(api_error(400, "invalid_request", "`status` must be 'armed' or 'muted'"));
    }
    Ok(())
}

/// 404 for a rule name that names no rule.
pub fn rule_not_found() -> (e: ApiError)
    ensures
        e.status == 404,
        e.error@ == "not_found"@,
        e.message@ == "no alert rule with that name"@,
{
    api_error(404, "not_found", "no alert rule with that name")
}

/// The answer of a deletion that removed `affected` rules named `name`: the
/// deleted name, or 404 when there was none.
pub fn deletion_result(affected: u64, name: String) -> (r: Result<String, ApiError>)
    ensures
        affected > 0 ==> r == Ok::<String, ApiError>(name),
        affected == 0 ==> (r matches Err(e) && e.status == 404 && e.error@ == "not_found"@
            && e.message@ == "no alert rule with that name"@),
{
    if affected == 0 {
        return Err(rule_not_found());
    }
    Ok(name)
}

} // verus!
