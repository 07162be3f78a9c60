//! Plane-1 operator substrate (`/v1/operator/consent/*`,
//! `/v1/operator/contributions/density`, `/v1/operator/verification/throughput`,
//! `/v1/operator/config/benchmark-gate`): filter parsing, the KEK status
//! derivation, the density-floor predicate, and the rules for updating the benchmark publication settings.

use vstd::prelude::*;

use crate::auth::AuthenticatedOperator;
use crate::errors::{ApiError, api_error, api_error_msg, error_view};
use crate::text::{concat3, str_eq, string_of, trim, trimmed};

pub use crate::operator_entities::{clamp_limit, clamp_offset};

verus! {

/// Default rolling window of the density read, in days.
pub const DEFAULT_WINDOW_DAYS: i64 = 30;

/// Default look-back of the throughput read, in hours.
pub const DEFAULT_WINDOW_HOURS: i64 = 24;

/// The consent tiers.
#[derive(Debug, Clone, Copy, PartialEq, Eq, Structural)]
pub enum ConsentTier {
    Anonymous,
    BrandVisibility,
}

/// The optional `tier` filter: absent or blank means all tiers; otherwise
/// `anonymous` or `brand_visibility` (trimmed), anything else is a 400.
pub fn parse_tier(raw: Option<&str>) -> (r: Result<Option<ConsentTier>, ApiError>)
    ensures
        match raw {
            Some(s) if trim(s@).len() > 0 => if trim(s@) == "anonymous"@ {
                r == Ok::<Option<ConsentTier>, ApiError>(Some(ConsentTier::Anonymous))
            } else if trim(s@) == "brand_visibility"@ {
                r == Ok::<Option<ConsentTier>, ApiError>(Some(ConsentTier::BrandVisibility))
            } else {
                r matches Err(e) && error_view(e) == (400u16, "invalid_tier"@, "unknown tier '"@ + trim(s@)
                    + "'; expected 'anonymous' or 'brand_visibility'"@)
            },
            _ => r == Ok::<Option<ConsentTier>, ApiError>(None),
        },
{
    let t = match raw {
        Some(s) => {
            let t = trimmed(s);
            if t.len() == 0 {
                return Ok(None);
            }
            string_of(&t)
        },
        None => return Ok(None),
    };
    if str_eq(t.as_str(), "anonymous") {
        Ok(Some(ConsentTier::Anonymous))
    } else if str_eq(t.as_str(), "brand_visibility") {
        Ok(Some(ConsentTier::BrandVisibility))
    } else {
        Err(
            api_error_msg(
                400,
                "invalid_tier",
                concat3("unknown tier '", t.as_str(), "'; expected 'anonymous' or 'brand_visibility'"),
            ),
        )
    }
}

/// The optional `event` filter: absent or blank means all events;
/// otherwise `optin` or `optout` (trimmed), anything else is a 400.
pub fn parse_event(raw: Option<&str>) -> (r: Result<Option<String>, ApiError>)
    ensures
        match raw {
            Some(s) if trim(s@).len() > 0 => if trim(s@) == "optin"@ || trim(s@) == "optout"@ {
                r matches Ok(Some(e)) && e@ == trim(s@)
            } else {
                r matches Err(e) && error_view(e) == (400u16, "invalid_event"@, "unknown event '"@ + trim(s@)
                    + "'; expected 'optin' or 'optout'"@)
            },
            _ => r matches Ok(None),
        },
{
    let t = match raw {
        Some(s) => {
            let t = trimmed(s);
            if t.len() == 0 {
                return Ok(None);
            }
            string_of(&t)
        },
        None => return Ok(None),
    };
    if str_eq(t.as_str(), "optin") || str_eq(t.as_str(), "optout") {
        Ok(Some(t))
    } else {
        Err(
            api_error_msg(
                400,
                "invalid_event",
                concat3("unknown event '", t.as_str(), "'; expected 'optin' or 'optout'"),
            ),
        )
    }
}

/// Per-project crypto-shred status.
#[derive(Debug)]
pub struct KekStatusView {
    pub project_id: String,
    /// `active`, `shredded` or `pending`; never key material.
    pub status: String,
}

/// Reply to the KEK status read.
#[derive(Debug)]
pub struct KekStatusResponse {
    pub projects: Vec<KekStatusView>,
    pub count: usize,
}

/// The KEK status from two non-secret signals: a loadable KEK is `active`;
/// no KEK but identified contributions on record means it was shredded;
/// otherwise it is `pending` provisioning.
pub fn derive_kek_status(kek_present: bool, has_identified_contributions: bool) -> (s: &'static str)
    ensures
        kek_present ==> s@ == "active"@,
        !kek_present && has_identified_contributions ==> s@ == "shredded"@,
        !kek_present && !has_identified_contributions ==> s@ == "pending"@,
{
    if kek_present {
        "active"
    } else if has_identified_contributions {
        "shredded"
    } else {
        "pending"
    }
}

/// Query of the density read.
#[derive(Debug)]
pub struct DensityQuery {
    /// Rolling window in days (defaults to 30).
    pub window_days: Option<i64>,
}

/// One (provider × category × window) density segment.
#[derive(Debug)]
pub struct DensitySegmentView {
    pub provider: String,
    pub category: String,
    pub window_days: i64,
    pub contributor_count: i64,
    /// Whether the segment meets the k >= `density_floor` floor.
    pub meets_floor: bool,
}

/// Reply to the density read.
#[derive(Debug)]
pub struct DensityResponse {
    pub density_floor: i64,
    pub window_days: i64,
    pub segments: Vec<DensitySegmentView>,
    pub count: usize,
}

/// The density window: the requested days, 30 by default, at least 1.
pub fn density_window(requested: Option<i64>) -> (d: i64)
    ensures
        d == (match requested {
            None => DEFAULT_WINDOW_DAYS,
            Some(r) => if r < 1 { 1 } else { r },
        }),
{
    match requested {
        Some(r) => if r < 1 { 1 } else { r },
        None => DEFAULT_WINDOW_DAYS,
    }
}

/// A density segment, flagged against the floor `k`.
pub fn density_segment(provider: String, category: String, window_days: i64, contributor_count: i64, floor: i64) -> (s: DensitySegmentView)
    ensures
        s.provider == provider,
        s.category == category,
        s.window_days == window_days,
        s.contributor_count == contributor_count,
        s.meets_floor == (contributor_count >= floor),
{
    DensitySegmentView { provider, category, window_days, contributor_count, meets_floor: contributor_count >= floor }
}

/// Query of the throughput read.
#[derive(Debug)]
pub struct ThroughputQuery {
    /// Look-back window in hours (defaults to 24).
    pub window_hours: Option<i64>,
}

/// Reply to the throughput read.
#[derive(Debug)]
pub struct ThroughputResponse {
    pub window_hours: i64,
    pub verified: i64,
    pub failed: i64,
    pub revoked: i64,
    pub expired: i64,
    pub pending: i64,
    pub total: i64,
}

/// The throughput look-back: the requested hours, 24 by default, at least 1.
pub fn throughput_window(requested: Option<i64>) -> (h: i64)
    ensures
        h == (match requested {
            None => DEFAULT_WINDOW_HOURS,
            Some(r) => if r < 1 { 1 } else { r },
        }),
{
    match requested {
        Some(r) => if r < 1 { 1 } else { r },
        None => DEFAULT_WINDOW_HOURS,
    }
}

/// Body of `PUT /operator/config/benchmark-gate`.
#[derive(Debug)]
pub struct GatePutBody {
    pub terms_finalized: bool,
    pub terms_version: String,
    pub density_floor: i64,
    pub operator: Option<String>,
}

/// A validated update of the benchmark publication settings: what is written to the stored settings.
#[derive(Debug)]
pub struct GateUpdate {
    pub terms_finalized: bool,
    /// The trimmed terms version.
    pub terms_version: String,
    /// The floor as the store's 32-bit column holds it.
    pub density_floor: i32,
    /// The acting operator, if known.
    pub actor: Option<String>,
}

/// Validates a gate update: a non-blank terms version and a floor of at
/// least 1 (400 otherwise). The actor is the body's `operator` (trimmed)
/// when not blank, else the operator's actor header.
pub fn gate_update(body: &GatePutBody, op: &AuthenticatedOperator) -> (r: Result<GateUpdate, ApiError>)
    ensures
        trim(body.terms_version@).len() == 0 ==> (r matches Err(e) && error_view(e) == (400u16,
            "terms_version_required"@, "terms_version must be a non-empty string"@)),
        trim(body.terms_version@).len() > 0 && body.density_floor < 1 ==> (r matches Err(e) && error_view(e)
            == (400u16, "invalid_density_floor"@, "density_floor must be >= 1"@)),
        trim(body.terms_version@).len() > 0 && body.density_floor >= 1 ==> (r matches Ok(u)
            && u.terms_finalized == body.terms_finalized
            && u.terms_version@ == trim(body.terms_version@)
            && u.density_floor == body.density_floor as i32
            && (match body.operator {
                Some(o) if trim(o@).len() > 0 => u.actor matches Some(a) && a@ == trim(o@),
                _ => match op.actor {
                    Some(h) => u.actor matches Some(a) && a@ == h@,
                    None => u.actor is None,
                },
            })),
{
    let tv = trimmed(body.terms_version.as_str());
    if tv.len() == 0 {
        return Err(api_error(400, "terms_version_required", "terms_version must be a non-empty string"));
    }
    if body.density_floor < 1 {
        return Err(api_error(400, "invalid_density_floor", "density_floor must be >= 1"));
    }
    let body_actor: Option<String> = match &body.operator {
        Some(o) => {
            let t = trimmed(o.as_str());
            if t.len() > 0 { Some(string_of(&t)) } else { None }
        },
        None => None,
    };
    let actor = match body_actor {
        Some(a) => Some(a),
        None => match &op.actor {
            Some(h) => Some(h.clone()),
            None => None,
        },
    };
    Ok(
        GateUpdate {
            terms_finalized: body.terms_finalized,
            terms_version: string_of(&tv),
            density_floor: body.density_floor as i32,
            actor,
        },
    )
}

} // verus!
