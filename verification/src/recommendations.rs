//! `/v1/recommendations`: lifecycle-state names, the webhook-eligible
//! states, page sizes and cursors, and the answers of the generate and
//! transition endpoints.

use vstd::prelude::*;

use crate::errors::{ApiError, api_error, api_error_msg, error_view};
use crate::text::{
    chars_of, dec, find_first, first_index, parse_i64, parse_i64_chars, push_str, str_eq, string_of,
};
use crate::wire::{parse_uuid, uuid_from_str};

verus! {

/// The recommendation lifecycle states.
#[derive(Debug, Clone, Copy, PartialEq, Eq, Structural)]
pub enum LifecycleState {
    Generated,
    Surfaced,
    Acknowledged,
    Acted,
    Measured,
    Dismissed,
    Stale,
}

/// The state a stored state name stands for.
pub open spec fn state_named(s: Seq<char>) -> Option<LifecycleState> {
    if s == "generated"@ {
        Some(LifecycleState::Generated)
    } else if s == "surfaced"@ {
        Some(LifecycleState::Surfaced)
    } else if s == "acknowledged"@ {
        Some(LifecycleState::Acknowledged)
    } else if s == "acted"@ {
        Some(LifecycleState::Acted)
    } else if s == "measured"@ {
        Some(LifecycleState::Measured)
    } else if s == "dismissed"@ {
        Some(LifecycleState::Dismissed)
    } else if s == "stale"@ {
        Some(LifecycleState::Stale)
    } else {
        None
    }
}

/// Reads a lifecycle state name.
pub fn parse_state(s: &str) -> (r: Option<LifecycleState>)
    ensures
        r == state_named(s@),
{
    if str_eq(s, "generated") {
        Some(LifecycleState::Generated)
    } else if str_eq(s, "surfaced") {
        Some(LifecycleState::Surfaced)
    } else if str_eq(s, "acknowledged") {
        Some(LifecycleState::Acknowledged)
    } else if str_eq(s, "acted") {
        Some(LifecycleState::Acted)
    } else if str_eq(s, "measured") {
        Some(LifecycleState::Measured)
    } else if str_eq(s, "dismissed") {
        Some(LifecycleState::Dismissed)
    } else if str_eq(s, "stale") {
        Some(LifecycleState::Stale)
    } else {
        None
    }
}

/// The lifecycle event emitted when a recommendation reaches `state`: only
/// the externally observable states have one.
pub fn webhook_event_state(state: LifecycleState) -> (r: Option<&'static str>)
    ensures
        state == LifecycleState::Surfaced ==> (r matches Some(s) && s@ == "surfaced"@),
        state == LifecycleState::Acted ==> (r matches Some(s) && s@ == "acted"@),
        state == LifecycleState::Measured ==> (r matches Some(s) && s@ == "measured"@),
        !(state == LifecycleState::Surfaced || state == LifecycleState::Acted || state == LifecycleState::Measured)
            ==> r is None,
{
    match state {
        LifecycleState::Surfaced => Some("surfaced"),
        LifecycleState::Acted => Some("acted"),
        LifecycleState::Measured => Some("measured"),
        _ => None,
    }
}

/// The lifecycle events a recommendation can emit.
#[derive(Debug, Clone, Copy, PartialEq, Eq, Structural)]
pub enum RecommendationEventKind {
    Generated,
    Surfaced,
    Acted,
    Measured,
}

/// The event for a lifecycle-state name; other names emit nothing.
pub fn event_kind_for(state: &str) -> (r: Option<RecommendationEventKind>)
    ensures
        r == (if state@ == "generated"@ {
            Some(RecommendationEventKind::Generated)
        } else if state@ == "surfaced"@ {
            Some(RecommendationEventKind::Surfaced)
        } else if state@ == "acted"@ {
            Some(RecommendationEventKind::Acted)
        } else if state@ == "measured"@ {
            Some(RecommendationEventKind::Measured)
        } else {
            None::<RecommendationEventKind>
        }),
{
    if str_eq(state, "generated") {
        Some(RecommendationEventKind::Generated)
    } else if str_eq(state, "surfaced") {
        Some(RecommendationEventKind::Surfaced)
    } else if str_eq(state, "acted") {
        Some(RecommendationEventKind::Acted)
    } else if str_eq(state, "measured") {
        Some(RecommendationEventKind::Measured)
    } else {
        None
    }
}

// ---------------------------------------------------------------------------
// Generation
// ---------------------------------------------------------------------------

/// Evaluation window of a generation run, in days.
pub const WINDOW_DAYS: i64 = 14;

/// Reply to `POST /v1/recommendations/generate`.
#[derive(Debug)]
pub struct GenerateAccepted {
    pub status: String,
    /// Recommendations the engine produced this run.
    pub generated_count: usize,
    /// Of those, how many were freshly persisted.
    pub inserted_count: usize,
    /// Where to read the resulting recommendations.
    pub status_url: String,
}

/// Generation needs the project config (503 without it).
pub fn require_config(config_loaded: bool) -> (r: Result<(), ApiError>)
    ensures
        config_loaded ==> r is Ok,
        !config_loaded ==> (r matches Err(e) && error_view(e) == (503u16, "config_unavailable"@,
            "no opengeo.yaml loaded; cannot assemble recommendation inputs"@)),
{
    if config_loaded {
        Ok(())
    } else {
        Err(api_error(503, "config_unavailable", "no opengeo.yaml loaded; cannot assemble recommendation inputs"))
    }
}

/// The 202 reply of a generation run.
pub fn generate_accepted(generated_count: usize, inserted_count: usize) -> (r: GenerateAccepted)
    ensures
        r.status@ == "generated"@,
        r.generated_count == generated_count,
        r.inserted_count == inserted_count,
        r.status_url@ == "/v1/recommendations"@,
{
    GenerateAccepted {
        status: "generated".to_owned(),
        generated_count,
        inserted_count,
        status_url: "/v1/recommendations".to_owned(),
    }
}

// ---------------------------------------------------------------------------
// Listing
// ---------------------------------------------------------------------------

/// Default page size of the list endpoint.
pub const DEFAULT_PAGE_LIMIT: i64 = 50;

/// Largest page the list endpoint serves.
pub const MAX_PAGE_LIMIT: i64 = 200;

/// Query of `GET /v1/recommendations`.
#[derive(Debug)]
pub struct ListParams {
    pub limit: Option<i64>,
    pub cursor: Option<String>,
}

/// The page size: defaulted and clamped into `[1, MAX_PAGE_LIMIT]`.
pub fn page_limit(requested: Option<i64>) -> (l: i64)
    ensures
        l == (match requested {
            None => DEFAULT_PAGE_LIMIT,
            Some(r) => if r < 1 { 1 } else if r > MAX_PAGE_LIMIT { MAX_PAGE_LIMIT } else { r },
        }),
{
    let r = match requested {
        Some(r) => r,
        None => DEFAULT_PAGE_LIMIT,
    };
    if r < 1 {
        1
    } else if r > MAX_PAGE_LIMIT {
        MAX_PAGE_LIMIT
    } else {
        r
    }
}

/// One more row than the page holds is fetched to learn whether a further
/// page exists: the number of rows to keep, and whether a next-page cursor
/// is owed (for the last kept row).
pub fn page_cut(fetched: usize, limit: i64) -> (r: (usize, bool))
    requires
        1 <= limit <= MAX_PAGE_LIMIT,
    ensures
        (fetched as i64) > limit ==> r == (limit as usize, true),
        (fetched as i64) <= limit ==> r == (fetched, false),
{
    if fetched as i64 > limit {
        (limit as usize, true)
    } else {
        (fetched, false)
    }
}

/// What `uuid::Uuid`'s `Display` writes for the UUID with value `u`: the 32
/// lowercase hex digits of the value, most significant first, grouped
/// 8-4-4-4-12 by hyphens.
pub open spec fn uuid_text(u: u128) -> Seq<char> {
    Seq::new(36, |j: int| if j == 8 || j == 13 || j == 18 || j == 23 {
        '-'
    } else {
        let k = if j < 8 { j } else if j < 13 { j - 1 } else if j < 18 { j - 2 } else if j < 23 { j - 3 } else { j - 4 };
        crate::operator_entities::hex_digit((u as int / vstd::arithmetic::power::pow(16, (31 - k) as nat)) % 16)
    })
}

/// `uuid::Uuid::from_u128(u).to_string()`: the hyphenated lowercase form,
/// which `Uuid::from_str` reads back as the same UUID.
#[verifier::external_body]
pub(crate) fn format_uuid(u: u128) -> (s: String)
    ensures
        s@ == uuid_text(u),
        uuid_from_str(s@) == Some(u),
{
    uuid::Uuid::from_u128(u).to_string()
}

/// A page cursor: `<generated_at micros>:<uuid>`.
pub fn encode_cursor(generated_at_micros: i64, id: u128) -> (c: String)
    ensures
        c@ == crate::text::signed_dec(generated_at_micros as int) + ":"@ + uuid_text(id),
{
    let mut v: Vec<char> = crate::text::signed_dec_chars(generated_at_micros);
    push_str(&mut v, ":");
    let u = format_uuid(id);
    push_str(&mut v, u.as_str());
    string_of(&v)
}

/// Whether chrono represents the instant `m` microseconds after the epoch
/// (`DateTime::<Utc>::from_timestamp_micros(m).is_some()`).
pub uninterp spec fn micros_representable(m: i64) -> bool;

/// `chrono::DateTime::<chrono::Utc>::from_timestamp_micros(m).is_some()`.
#[verifier::external_body]
fn timestamp_micros_valid(m: i64) -> (r: bool)
    ensures
        r == micros_representable(m),
{
    chrono::DateTime::<chrono::Utc>::from_timestamp_micros(m).is_some()
}

/// What a cursor decodes to: split at its first `:`, a signed decimal of
/// microseconds that chrono can represent, and a UUID.
pub open spec fn cursor_value(c: Seq<char>) -> Option<(i64, u128)> {
    match first_index(c, ':') {
        None => None,
        Some(i) => match parse_i64(c.subrange(0, i)) {
            None => None,
            Some(m) => if !micros_representable(m) {
                None
            } else {
                match uuid_from_str(c.subrange(i + 1, c.len() as int)) {
                    Some(id) => Some((m, id)),
                    None => None,
                }
            },
        },
    }
}

/// Decodes a page cursor.
pub fn decode_cursor(c: &str) -> (r: Option<(i64, u128)>)
    ensures
        r == cursor_value(c@),
{
    let v = chars_of(c);
    let colon = match find_first(&v, ':') {
        Some(i) => i,
        None => return None,
    };
    let mut head: Vec<char> = Vec::new();
    let mut k: usize = 0;
    while k < colon
        invariant
            k <= colon,
            colon < v.len(),
            head@ == v@.subrange(0, k as int),
        decreases colon - k,
    {
        head.push(v[k]);
        assert(v@.subrange(0, k + 1) =~= v@.subrange(0, k as int).push(v@[k as int]));
        k = k + 1;
    }
    let micros = match parse_i64_chars(&head) {
        Some(m) => m,
        None => return None,
    };
    if !timestamp_micros_valid(micros) {
        return None;
    }
    let mut tail: Vec<char> = Vec::new();
    let mut j: usize = colon + 1;
    assert(v@.subrange(colon + 1, colon + 1) =~= Seq::<char>::empty());
    while j < v.len()
        invariant
            colon < v.len(),
            colon + 1 <= j <= v.len(),
            tail@ == v@.subrange(colon + 1, j as int),
        decreases v.len() - j,
    {
        tail.push(v[j]);
        assert(v@.subrange(colon + 1, j + 1) =~= v@.subrange(colon + 1, j as int).push(v@[j as int]));
        j = j + 1;
    }
    let id_text = string_of(&tail);
    match parse_uuid(id_text.as_str()) {
        Some(id) => Some((micros, id)),
        None => None,
    }
}

/// 400 for a malformed cursor.
pub fn invalid_cursor() -> (e: ApiError)
    ensures
        error_view(e) == (400u16, "invalid_cursor"@, "malformed page cursor"@),
{
    api_error(400, "invalid_cursor", "malformed page cursor")
}

// ---------------------------------------------------------------------------
// Transitions
// ---------------------------------------------------------------------------

/// Body of `PATCH /v1/recommendations/:id/state`.
#[derive(Debug)]
pub struct TransitionRequest {
    /// Target lifecycle state.
    pub to: String,
    pub note: Option<String>,
    pub evidence_url: Option<String>,
}

/// The path id must be a UUID (400 otherwise).
pub fn recommendation_id(raw: &str) -> (r: Result<u128, ApiError>)
    ensures
        match uuid_from_str(raw@) {
            Some(u) => r == Ok::<u128, ApiError>(u),
            None => r matches Err(e) && error_view(e) == (400u16, "invalid_id"@, "id is not a UUID"@),
        },
{
    match parse_uuid(raw) {
        Some(u) => Ok(u),
        None => Err(api_error(400, "invalid_id", "id is not a UUID")),
    }
}

/// The target state of a transition (400 for an unknown name).
pub fn target_state(to: &str) -> (r: Result<LifecycleState, ApiError>)
    ensures
        match state_named(to@) {
            Some(s) => r == Ok::<LifecycleState, ApiError>(s),
            None => r matches Err(e) && error_view(e) == (400u16, "invalid_state"@, "unknown target state"@),
        },
{
    match parse_state(to) {
        Some(s) => Ok(s),
        None => Err(api_error(400, "invalid_state", "unknown target state")),
    }
}

/// The stored state of a recommendation (500 when it is not a known name).
pub fn stored_state(stored: &str) -> (r: Result<LifecycleState, ApiError>)
    ensures
        match state_named(stored@) {
            Some(s) => r == Ok::<LifecycleState, ApiError>(s),
            None => r matches Err(e) && error_view(e) == (500u16, "corrupt_state"@,
                "stored state is not a known lifecycle state"@),
        },
{
    match parse_state(stored) {
        Some(s) => Ok(s),
        None => Err(api_error(500, "corrupt_state", "stored state is not a known lifecycle state")),
    }
}

/// 404 for a recommendation outside the project.
pub fn recommendation_not_found() -> (e: ApiError)
    ensures
        error_view(e) == (404u16, "not_found"@, "recommendation not found"@),
{
    api_error(404, "not_found", "recommendation not found")
}

/// 409 for a transition the lifecycle forbids, with the state machine's
/// reason.
pub fn transition_conflict(reason: String) -> (e: ApiError)
    ensures
        error_view(e) == (409u16, "illegal_transition"@, reason@),
{
    api_error_msg(409, "illegal_transition", reason)
}

} // verus!
