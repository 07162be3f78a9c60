//! Session settings a request runs under so row-level security scopes its
//! queries to the caller's organisation.

use vstd::prelude::*;

use crate::authz::OrgContext;
use crate::recommendations::{format_uuid, uuid_text};

verus! {

/// The session settings for a request: `app.org` set to the organisation and,
/// when an operator acts, `app.operator` set to the operator; none without an
/// org context.
pub fn guc_settings(ctx: Option<OrgContext>) -> (s: Vec<(&'static str, String)>)
    ensures
        match ctx {
            None => s@.len() == 0,
            Some(c) => {
                &&& s@.len() == (if c.operator_id is Some { 2int } else { 1int })
                &&& s@[0].0@ == "app.org"@ && s@[0].1@ == uuid_text(c.org_id)
                &&& c.operator_id matches Some(op) ==> s@[1].0@ == "app.operator"@ && s@[1].1@ == uuid_text(op)
            },
        },
{
    let mut s: Vec<(&'static str, String)> = Vec::new();
    match ctx {
        None => {},
        Some(c) => {
            s.push(("app.org", format_uuid(c.org_id)));
            match c.operator_id {
                Some(op) => {
                    s.push(("app.operator", format_uuid(op)));
                },
                None => {},
            }
        },
    }
    s
}

} // verus!
