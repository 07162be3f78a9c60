//! `/v1/orgs/:org_id/branding`: who may edit branding, the plan gate, the
//! accent-colour rule, and the custom-domain hostname rule.

use vstd::prelude::*;

use crate::authz::Role;
use crate::color::{accent_hex_result, validate_accent_hex};
use crate::errors::{ApiError, api_error, api_error_msg, error_view};
use crate::text::{chars_of, contains_chars, contains_seq, has_char, string_of, trim, trimmed};

verus! {

/// Custom-domain status.
#[derive(Debug)]
pub struct DomainStatusResponse {
    pub custom_domain: Option<String>,
    pub domain_status: String,
    pub domain_txt_record: Option<String>,
    pub tls_status: String,
}

/// Reply to a custom-domain verification.
#[derive(Debug)]
pub struct DomainVerifyResponse {
    pub verified: bool,
    pub domain_status: String,
}

/// Body of `PUT /v1/orgs/:org_id/branding`.
#[derive(Debug)]
pub struct UpdateBrandingRequest {
    pub logo_url: Option<String>,
    pub accent_hex: Option<String>,
}

/// Body of `PUT /v1/orgs/:org_id/branding/domain`.
#[derive(Debug)]
pub struct PutDomainRequest {
    pub custom_domain: String,
}

/// The verdict on a hostname: `None` when acceptable, else why not.
pub open spec fn hostname_problem(domain: Seq<char>) -> Option<Seq<char>> {
    let d = trim(domain);
    if d.len() == 0 {
        Some("domain must not be empty"@)
    } else if contains_seq(d, "://"@) {
        Some("domain must not include a scheme (remove https://)"@)
    } else if d.contains(' ') {
        Some("domain must not contain spaces"@)
    } else if !d.contains('.') {
        Some("domain must be a fully-qualified hostname (e.g. portal.example.com)"@)
    } else {
        None
    }
}

/// Minimal hostname validation: non-empty, no scheme prefix, no spaces, and
/// a dot.
pub fn validate_hostname(domain: &str) -> (r: Result<(), String>)
    ensures
        match hostname_problem(domain@) {
            None => r is Ok,
            Some(m) => r matches Err(e) && e@ == m,
        },
{
    let d = trimmed(domain);
    if d.len() == 0 {
        return Err("domain must not be empty".to_owned());
    }
    if contains_chars(&d, &chars_of("://")) {
        return Err("domain must not include a scheme (remove https://)".to_owned());
    }
    if has_char(&d, ' ') {
        return Err("domain must not contain spaces".to_owned());
    }
    if !has_char(&d, '.') {
        return Err("domain must be a fully-qualified hostname (e.g. portal.example.com)".to_owned());
    }
    Ok(())
}

/// The answer to an invalid custom domain (422 with the reason).
pub fn invalid_domain(reason: String) -> (e: ApiError)
    ensures
        e.status == 422,
        e.error@ == "invalid_domain"@,
        e.message@ == reason@,
{
    api_error_msg(422, "invalid_domain", reason)
}

/// The checks of a branding update, in order: the caller must be an owner
/// or admin (or be the operator surface, with no org role); the org's plan
/// must include branding; an accent colour, when given, must pass the
/// accent-colour rule.
pub fn check_branding_update(role: Option<Role>, branding_enabled: bool, accent_hex: Option<&str>) -> (r: Result<(), ApiError>)
    ensures
        !(role is None || role == Some(Role::Owner) || role == Some(Role::Admin)) ==> (r matches Err(e) && error_view(e)
            == (403u16, "auth_forbidden"@, "only Owner or Admin may update org branding"@)),
        (role is None || role == Some(Role::Owner) || role == Some(Role::Admin)) && !branding_enabled ==> (r matches Err(e)
            && error_view(e) == (402u16, "plan_upgrade_required"@, "org branding is available on Pro and Enterprise plans"@)),
        (role is None || role == Some(Role::Owner) || role == Some(Role::Admin)) && branding_enabled ==> match accent_hex {
            Some(h) => match accent_hex_result(vstd::utf8::encode_utf8(h@)) {
                Ok(()) => r is Ok,
                Err(reason) => r matches Err(e) && e.status == 422 && e.error@ == "invalid_accent_hex"@ && e.message@ == reason@,
            },
            None => r is Ok,
        },
{
    match role {
        Some(Role::Owner) | Some(Role::Admin) | None => {},
        Some(_) => {
            return Err(api_error(403, "auth_forbidden", "only Owner or Admin may update org branding"));
        },
    }
    if !branding_enabled {
        return Err(api_error(402, "plan_upgrade_required", "org branding is available on Pro and Enterprise plans"));
    }
    if let Some(h) = accent_hex {
        if let Err(reason) = validate_accent_hex(h) {
            return Err(api_error(422, "invalid_accent_hex", reason));
        }
    }
    Ok(())
}

} // verus!
