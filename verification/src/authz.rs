//! Capability checks: the role a caller holds in an org, and the decision
//! the authorization layer takes for a request.

use vstd::prelude::*;

use crate::text::{concat3, str_eq};

verus! {

/// A caller's role in an org.
#[derive(Debug, Clone, Copy, PartialEq, Eq, Structural)]
pub enum Role {
    Owner,
    Admin,
    Billing,
    Operator,
    Viewer,
}

/// The role a stored role name stands for; unknown names grant no role.
pub open spec fn role_named(s: Seq<char>) -> Option<Role> {
    if s == "owner"@ {
        Some(Role::Owner)
    } else if s == "admin"@ {
        Some(Role::Admin)
    } else if s == "billing"@ {
        Some(Role::Billing)
    } else if s == "operator"@ {
        Some(Role::Operator)
    } else if s == "viewer"@ {
        Some(Role::Viewer)
    } else {
        None
    }
}

/// Reads a stored role name.
pub fn parse_role(s: &str) -> (r: Option<Role>)
    ensures
        r == role_named(s@),
{
    if str_eq(s, "owner") {
        Some(Role::Owner)
    } else if str_eq(s, "admin") {
        Some(Role::Admin)
    } else if str_eq(s, "billing") {
        Some(Role::Billing)
    } else if str_eq(s, "operator") {
        Some(Role::Operator)
    } else if str_eq(s, "viewer") {
        Some(Role::Viewer)
    } else {
        None
    }
}

/// The name a role is reported by in a refusal.
pub open spec fn role_debug_name(r: Role) -> Seq<char> {
    match r {
        Role::Owner => "Owner"@,
        Role::Admin => "Admin"@,
        Role::Billing => "Billing"@,
        Role::Operator => "Operator"@,
        Role::Viewer => "Viewer"@,
    }
}

fn role_name(r: Role) -> (s: &'static str)
    ensures
        s@ == role_debug_name(r),
{
    match r {
        Role::Owner => "Owner",
        Role::Admin => "Admin",
        Role::Billing => "Billing",
        Role::Operator => "Operator",
        Role::Viewer => "Viewer",
    }
}

/// The org context of an authenticated request.
#[derive(Debug, Clone, Copy)]
pub struct OrgContext {
    pub operator_id: Option<u128>,
    pub org_id: u128,
}

/// What the authorization layer does with a request.
#[derive(Debug, Clone, Copy, PartialEq, Eq, Structural)]
pub enum AuthzStep {
    /// The route requires no capability, or the deployment is single-tenant
    /// (no org context): let it through unchecked.
    PassThrough,
    /// API-key access without an operator: let it through as an operator.
    AsOperator,
    /// Look up the operator's role in the org, then decide.
    LookupRole { operator_id: u128, org_id: u128 },
}

/// The first step of the capability check.
pub fn authz_step(requires_capability: bool, ctx: Option<OrgContext>) -> (s: AuthzStep)
    ensures
        !requires_capability ==> s == AuthzStep::PassThrough,
        requires_capability ==> s == (match ctx {
            None => AuthzStep::PassThrough,
            Some(c) => match c.operator_id {
                None => AuthzStep::AsOperator,
                Some(op) => AuthzStep::LookupRole { operator_id: op, org_id: c.org_id },
            },
        }),
{
    if !requires_capability {
        return AuthzStep::PassThrough;
    }
    match ctx {
        None => AuthzStep::PassThrough,
        Some(c) => match c.operator_id {
            None => AuthzStep::AsOperator,
            Some(op) => AuthzStep::LookupRole { operator_id: op, org_id: c.org_id },
        },
    }
}

/// The decision once the operator's role is known: no role refuses (403, not
/// a member); a role without the capability (`role_allowed` false) refuses
/// naming both; otherwise the caller proceeds with the role. The refusal's
/// detail is returned.
pub fn authz_verdict(role: Option<Role>, role_allowed: bool, capability_name: &str) -> (r: Result<Role, String>)
    ensures
        match role {
            None => r matches Err(d) && d@ == "not a member of this org"@,
            Some(x) => if role_allowed {
                r == Ok::<Role, String>(x)
            } else {
                r matches Err(d) && d@ == "role "@ + role_debug_name(x) + " is not permitted to perform "@ + capability_name@
            },
        },
{
    match role {
        None => Err("not a member of this org".to_string()),
        Some(x) => {
            if role_allowed {
                Ok(x)
            } else {
                let head = concat3("role ", role_name(x), " is not permitted to perform ");
                proof {
                    reveal_strlit("");
                }
                Err(concat3(head.as_str(), capability_name, ""))
            }
        },
    }
}

} // verus!
