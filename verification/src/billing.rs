//! Organisation billing: the usage answer built from plan inclusions and
//! overage, and the checks a subscription webhook passes before its update is
//! stored.

use vstd::prelude::*;

use crate::errors::{api_error, api_error_msg, ApiError};
use crate::text::{string_of, trim, trimmed};

verus! {

/// Plan inclusions, active counts and overage of an organisation.
#[derive(Debug)]
pub struct BillingUsageResponse {
    pub plan: String,
    pub included_seats: u32,
    /// 0 stands for an unlimited number of brands.
    pub included_brands: u32,
    pub active_seats: u32,
    pub active_brands: u32,
    pub seat_overage: u32,
    pub brand_overage: u32,
}

/// The usage answer. A plan with unlimited brands (`u32::MAX` included)
/// reports 0 included brands.
pub fn usage_response(
    plan: String,
    included_seats: u32,
    included_brands: u32,
    active_seats: u32,
    active_brands: u32,
    seat_overage: u32,
    brand_overage: u32,
) -> (r: BillingUsageResponse)
    ensures
        r.plan == plan,
        r.included_seats == included_seats,
        r.included_brands == (if included_brands == u32::MAX { 0 } else { included_brands }),
        r.active_seats == active_seats,
        r.active_brands == active_brands,
        r.seat_overage == seat_overage,
        r.brand_overage == brand_overage,
{
    BillingUsageResponse {
        plan,
        included_seats,
        included_brands: if included_brands == u32::MAX {
            0
        } else {
            included_brands
        },
        active_seats,
        active_brands,
        seat_overage,
        brand_overage,
    }
}

/// The answer when the caller may not read billing: `auth_forbidden` for a
/// 403, `auth_error` for any other refusal, with the refusal's status.
pub fn billing_refusal(status: u16) -> (e: ApiError)
    ensures
        e.status == status,
        e.error@ == (if status == 403 { "auth_forbidden"@ } else { "auth_error"@ }),
        e.message@ == "billing access is not permitted"@,
{
    if status == 403 {
        api_error(status, "auth_forbidden", "billing access is not permitted")
    } else {
        api_error(status, "auth_error", "billing access is not permitted")
    }
}

/// 404 when the organisation has no entitlement row.
pub fn entitlement_not_found() -> (e: ApiError)
    ensures
        e.status == 404,
        e.error@ == "entitlement_not_found"@,
        e.message@ == "billing entitlement not found"@,
{
    api_error(404, "entitlement_not_found", "billing entitlement not found")
}

/// 500 carrying a storage failure's description.
pub fn internal_error(message: String) -> (e: ApiError)
    ensures
        e.status == 500,
        e.error@ == "internal_error"@,
        e.message@ == message@,
{
    api_error_msg(500, "internal_error", message)
}

/// The webhook signing secret from its configured value, trimmed: 503
/// `stripe_webhook_not_configured` when it is unset or blank.
pub fn webhook_secret(configured: Option<&str>) -> (r: Result<String, ApiError>)
    ensures
        match configured {
            Some(v) if trim(v@).len() > 0 => r matches Ok(s) && s@ == trim(v@),
            _ => r matches Err(e) && e.status == 503 && e.error@ == "stripe_webhook_not_configured"@
                && e.message@ == "STRIPE_WEBHOOK_SECRET is not configured"@,
        },
{
    let not_configured = api_error(503, "stripe_webhook_not_configured", "STRIPE_WEBHOOK_SECRET is not configured");
    match configured {
        Some(v) => {
            let t = trimmed(v);
            if t.len() == 0 {
                Err(not_configured)
            } else {
                Ok(string_of(&t))
            }
        },
        None => Err(not_configured),
    }
}

/// The `Stripe-Signature` header, which a webhook must carry (absent or not
/// visible ASCII: 400 `missing_stripe_signature`).
pub fn webhook_signature(header: Option<&str>) -> (r: Result<&str, ApiError>)
    ensures
        match header {
            Some(v) => r == Ok::<&str, ApiError>(v),
            None => r matches Err(e) && e.status == 400 && e.error@ == "missing_stripe_signature"@
                && e.message@ == "Stripe-Signature header is required"@,
        },
{
    match header {
        Some(v) => Ok(v),
        None => Err(api_error(400, "missing_stripe_signature", "Stripe-Signature header is required")),
    }
}

/// `std::str::from_utf8`: the text the bytes encode when they are valid
/// UTF-8, `None` otherwise.
#[verifier::external_body]
fn utf8_text(bytes: &[u8]) -> (r: Option<&str>)
    ensures
        r is Some <==> vstd::utf8::valid_utf8(bytes@),
        r matches Some(s) ==> s@ == vstd::utf8::decode_utf8(bytes@),
{
    std::str::from_utf8(bytes).ok()
}

/// The webhook payload as text: 400 `invalid_payload` unless it is UTF-8.
pub fn webhook_payload(body: &[u8]) -> (r: Result<&str, ApiError>)
    ensures
        vstd::utf8::valid_utf8(body@) <==> r is Ok,
        r matches Ok(s) ==> s@ == vstd::utf8::decode_utf8(body@),
        r matches Err(e) ==> e.status == 400 && e.error@ == "invalid_payload"@
            && e.message@ == "webhook payload must be UTF-8 JSON"@,
{
    match utf8_text(body) {
        Some(s) => Ok(s),
        None => Err(api_error(400, "invalid_payload", "webhook payload must be UTF-8 JSON")),
    }
}

/// 400 when the webhook fails its signature check or does not parse.
pub fn invalid_webhook(reason: String) -> (e: ApiError)
    ensures
        e.status == 400,
        e.error@ == "invalid_stripe_webhook"@,
        e.message@ == reason@,
{
    api_error_msg(400, "invalid_stripe_webhook", reason)
}

/// The subscription id stored with an entitlement update: none for the free
/// plan.
pub fn stored_subscription(plan_is_free: bool, subscription_id: String) -> (r: Option<String>)
    ensures
        plan_is_free ==> r is None,
        !plan_is_free ==> r == Some(subscription_id),
{
    if plan_is_free {
        None
    } else {
        Some(subscription_id)
    }
}

} // verus!
