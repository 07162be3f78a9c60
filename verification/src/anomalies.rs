//! Anomaly listing: the query taxonomy, the projection of a stored anomaly
//! event onto a listed item, the prompt and provider filters, and the
//! newest-first order of the answer.

use vstd::prelude::*;

use crate::errors::{api_error, ApiError};
use crate::json::{find_member, first_member, lemma_first_member, JsonValue};
use crate::text::str_eq;
use crate::wire::{parse_rfc3339, rfc3339_parse, Timestamp};

verus! {

/// Kind of a listed anomaly; `RankSwap` is reserved for a detector to come.
#[derive(Debug, Clone, Copy, PartialEq, Eq, Structural)]
pub enum AnomalyItemKind {
    VisibilityDrop,
    CitationLoss,
    RankSwap,
}

/// Severity of a listed anomaly.
#[derive(Debug, Clone, Copy, PartialEq, Eq, Structural)]
pub enum AnomalySeverity {
    Low,
    Medium,
    High,
}

/// The `window` query parameter: `1d`, `7d` (default) or `30d`.
#[derive(Debug, Clone, Copy, PartialEq, Eq, Structural)]
pub enum WindowParam {
    OneDay,
    SevenDay,
    ThirtyDay,
}

impl WindowParam {
    /// The window's length in days.
    pub fn days(self) -> (d: u32)
        ensures
            d == (match self {
                WindowParam::OneDay => 1u32,
                WindowParam::SevenDay => 7u32,
                WindowParam::ThirtyDay => 30u32,
            }),
    {
        match self {
            WindowParam::OneDay => 1,
            WindowParam::SevenDay => 7,
            WindowParam::ThirtyDay => 30,
        }
    }
}

/// The `kind` query parameter: `visibility`, `citation` or `all` (default).
#[derive(Debug, Clone, Copy, PartialEq, Eq, Structural)]
pub enum KindParam {
    Visibility,
    Citation,
    All,
}

/// Query of the anomaly listing.
#[derive(Debug)]
pub struct AnomaliesQuery {
    pub prompt: Option<String>,
    pub provider: Option<String>,
    pub window: Option<WindowParam>,
    pub kind: Option<KindParam>,
    /// Floor on the time an anomaly was recorded.
    pub since: Option<Timestamp>,
}

/// The window a query asks for (7 days when it names none).
pub fn query_window_days(q: &AnomaliesQuery) -> (d: u32)
    ensures
        d == (match q.window {
            Some(WindowParam::OneDay) => 1u32,
            Some(WindowParam::ThirtyDay) => 30u32,
            _ => 7u32,
        }),
{
    match q.window {
        Some(w) => w.days(),
        None => WindowParam::SevenDay.days(),
    }
}

/// The stored event kinds a query selects.
pub open spec fn event_kinds_of(k: Option<KindParam>) -> Seq<Seq<char>> {
    match k {
        Some(KindParam::Visibility) => seq!["visibility.anomaly"@],
        Some(KindParam::Citation) => seq!["citation.anomaly"@],
        _ => seq!["visibility.anomaly"@, "citation.anomaly"@],
    }
}

/// The stored event kinds the query selects (both when it names none).
pub fn query_event_kinds(q: &AnomaliesQuery) -> (kinds: Vec<String>)
    ensures
        kinds@.len() == event_kinds_of(q.kind).len(),
        forall|i: int| 0 <= i < kinds@.len() ==> (#[trigger] kinds@[i])@ == event_kinds_of(q.kind)[i],
{
    let mut kinds: Vec<String> = Vec::new();
    match q.kind {
        Some(KindParam::Visibility) => {
            kinds.push("visibility.anomaly".to_string());
        },
        Some(KindParam::Citation) => {
            kinds.push("citation.anomaly".to_string());
        },
        _ => {
            kinds.push("visibility.anomaly".to_string());
            kinds.push("citation.anomaly".to_string());
        },
    }
    kinds
}

/// The item kind of a stored event kind; other event kinds are not listed.
pub open spec fn item_kind_of(event_kind: Seq<char>) -> Option<AnomalyItemKind> {
    if event_kind == "visibility.anomaly"@ {
        Some(AnomalyItemKind::VisibilityDrop)
    } else if event_kind == "citation.anomaly"@ {
        Some(AnomalyItemKind::CitationLoss)
    } else {
        None
    }
}

/// The value of the first member named `key` of an object.
pub open spec fn member_value(v: JsonValue, key: Seq<char>) -> Option<JsonValue> {
    match v {
        JsonValue::Object(m) => match first_member(m@, key) {
            Some(i) => Some(m@[i].1),
            None => None,
        },
        _ => None,
    }
}

/// The text of the first member named `key` of an object, when it is a string.
pub open spec fn str_member(v: JsonValue, key: Seq<char>) -> Option<Seq<char>> {
    match member_value(v, key) {
        Some(JsonValue::Str(s)) => Some(s@),
        _ => None,
    }
}

/// The text of member `key` of `v`, when it is a string.
fn get_str(v: &JsonValue, key: &str) -> (r: Option<String>)
    ensures
        match r {
            Some(s) => str_member(*v, key@) == Some(s@),
            None => str_member(*v, key@) is None,
        },
{
    match v {
        JsonValue::Object(members) => match find_member(members, key) {
            Some(i) => {
                proof {
                    lemma_first_member(members@, key@);
                }
                match &members[i].1 {
                    JsonValue::Str(s) => Some(s.clone()),
                    _ => None,
                }
            },
            None => None,
        },
        _ => None,
    }
}

/// Takes member `key` out of `v`.
fn take_member(v: JsonValue, key: &str) -> (r: Option<JsonValue>)
    ensures
        r == member_value(v, key@),
{
    match v {
        JsonValue::Object(members) => match find_member(&members, key) {
            Some(i) => {
                proof {
                    lemma_first_member(members@, key@);
                }
                let mut members = members;
                let (_, value) = members.remove(i);
                Some(value)
            },
            None => None,
        },
        _ => None,
    }
}

/// The alphabet ULIDs are written in (Crockford base 32).
pub open spec fn crockford_alphabet() -> Seq<char> {
    "0123456789ABCDEFGHJKMNPQRSTVWXYZ"@
}

/// The ULID text of a 128-bit identifier: its 26 base-32 digits, most
/// significant first, in the Crockford alphabet.
pub open spec fn ulid_text(id: u128) -> Seq<char> {
    Seq::new(26, |i: int| crockford_alphabet()[(id as int / vstd::arithmetic::power::pow(32, (25 - i) as nat)) % 32])
}

/// `ulid::Ulid::from_bytes(..).to_string()` on the big-endian bytes of `id`:
/// the 26-character Crockford base32
/// text of the 128-bit value.
#[verifier::external_body]
fn ulid_string(id: u128) -> (s: String)
    ensures
        s@ == ulid_text(id),
{
    ulid::Ulid::from_bytes(id.to_be_bytes()).to_string()
}

/// A listed anomaly, but for its effect size and severity.
#[derive(Debug)]
pub struct AnomalyProjection {
    /// ULID form of the event id.
    pub id: String,
    pub kind: AnomalyItemKind,
    pub prompt: Option<String>,
    pub provider: String,
    pub detected_at: Timestamp,
    pub window_days: u32,
    /// The detector's detail blob (`{}` when the event has none).
    pub details: JsonValue,
}

/// Projects a stored anomaly event onto a listed item: `None` for event kinds
/// that are not anomalies. The provider is the payload's (`unknown` when
/// absent), the detection time its `observed_at` when that is RFC 3339 (else
/// the time the event was recorded), and the prompt that of its `detail`.
pub fn project_anomaly(
    event_id: u128,
    event_kind: &str,
    created_at: Timestamp,
    payload: JsonValue,
    window_days: u32,
) -> (r: Option<AnomalyProjection>)
    ensures
        item_kind_of(event_kind@) is None ==> r is None,
        item_kind_of(event_kind@) matches Some(kind) ==> (r matches Some(p) && {
            &&& p.id@ == ulid_text(event_id)
            &&& p.kind == kind
            &&& p.provider@ == (match str_member(payload, "provider"@) {
                Some(s) => s,
                None => "unknown"@,
            })
            &&& p.detected_at == (match str_member(payload, "observed_at"@) {
                Some(s) => match rfc3339_parse(s) {
                    Ok(t) => t,
                    Err(_) => created_at,
                },
                None => created_at,
            })
            &&& p.window_days == window_days
            &&& match member_value(payload, "detail"@) {
                Some(d) => p.details == d,
                None => p.details matches JsonValue::Object(m) && m@.len() == 0,
            }
            &&& match p.prompt {
                Some(s) => str_member(p.details, "prompt"@) == Some(s@),
                None => str_member(p.details, "prompt"@) is None,
            }
        }),
{
    let kind = if str_eq(event_kind, "visibility.anomaly") {
        AnomalyItemKind::VisibilityDrop
    } else if str_eq(event_kind, "citation.anomaly") {
        AnomalyItemKind::CitationLoss
    } else {
        return None;
    };
    let provider = match get_str(&payload, "provider") {
        Some(p) => p,
        None => "unknown".to_string(),
    };
    let detected_at = match get_str(&payload, "observed_at") {
        Some(s) => match parse_rfc3339(s.as_str()) {
            Ok(t) => t,
            Err(_) => created_at,
        },
        None => created_at,
    };
    let details = match take_member(payload, "detail") {
        Some(d) => d,
        None => JsonValue::Object(Vec::new()),
    };
    let prompt = get_str(&details, "prompt");
    Some(AnomalyProjection {
        id: ulid_string(event_id),
        kind,
        prompt,
        provider,
        detected_at,
        window_days,
        details,
    })
}

/// Whether an item passes the query's prompt and provider filters (each
/// applies only when given, and compares for equality).
pub open spec fn passes_filters_spec(
    prompt: Option<Seq<char>>,
    provider: Seq<char>,
    want_prompt: Option<Seq<char>>,
    want_provider: Option<Seq<char>>,
) -> bool {
    &&& want_prompt matches Some(w) ==> prompt == Some(w)
    &&& want_provider matches Some(w) ==> provider == w
}

/// Whether projection `p` passes the prompt and provider filters of `q`.
pub fn passes_filters(p: &AnomalyProjection, q: &AnomaliesQuery) -> (r: bool)
    ensures
        r == passes_filters_spec(
            match p.prompt {
                Some(s) => Some(s@),
                None => None,
            },
            p.provider@,
            match q.prompt {
                Some(s) => Some(s@),
                None => None,
            },
            match q.provider {
                Some(s) => Some(s@),
                None => None,
            },
        ),
{
    let prompt_ok = match &q.prompt {
        Some(w) => match &p.prompt {
            Some(s) => str_eq(s.as_str(), w.as_str()),
            None => false,
        },
        None => true,
    };
    let provider_ok = match &q.provider {
        Some(w) => str_eq(p.provider.as_str(), w.as_str()),
        None => true,
    };
    prompt_ok && provider_ok
}

/// `a` is earlier than `b`.
pub open spec fn ts_lt(a: Timestamp, b: Timestamp) -> bool {
    a.secs < b.secs || (a.secs == b.secs && a.nanos < b.nanos)
}

/// Item `i` comes before item `j` in the newest-first order: it is newer, or
/// as new and listed earlier.
pub open spec fn newer_first(t: Seq<Timestamp>, i: int, j: int) -> bool {
    ts_lt(t[j], t[i]) || (t[i] == t[j] && i < j)
}

/// The order in which to list items detected at `times`: newest first, items
/// detected at the same instant in their original order.
pub fn newest_first(times: &Vec<Timestamp>) -> (order: Vec<usize>)
    ensures
        order@.len() == times@.len(),
        forall|a: int| 0 <= a < order@.len() ==> (#[trigger] order@[a]) < times@.len(),
        forall|x: usize| x < times@.len() ==> #[trigger] order@.contains(x),
        forall|a: int, b: int| 0 <= a < b < order@.len() ==> newer_first(times@, (#[trigger] order@[a]) as int, (#[trigger] order@[b]) as int),
{
    let ghost t = times@;
    let mut order: Vec<usize> = Vec::new();
    let mut i: usize = 0;
    while i < times.len()
        invariant
            t == times@,
            i <= t.len(),
            order@.len() == i,
            forall|a: int| 0 <= a < order@.len() ==> (#[trigger] order@[a]) < i,
            forall|x: usize| x < i ==> #[trigger] order@.contains(x),
            forall|a: int, b: int| 0 <= a < b < order@.len() ==> newer_first(t, (#[trigger] order@[a]) as int, (#[trigger] order@[b]) as int),
        decreases t.len() - i,
    {
        let ti = times[i];
        let mut p: usize = 0;
        while p < order.len()
            invariant
                t == times@,
                i < t.len(),
                ti == t[i as int],
                p <= order@.len(),
                forall|a: int| 0 <= a < order@.len() ==> (#[trigger] order@[a]) < i,
                forall|a: int| 0 <= a < p ==> !ts_lt(t[(#[trigger] order@[a]) as int], ti),
            ensures
                p <= order@.len(),
                forall|a: int| 0 <= a < p ==> !ts_lt(t[(#[trigger] order@[a]) as int], ti),
                p < order@.len() ==> ts_lt(t[order@[p as int] as int], ti),
            decreases order@.len() - p,
        {
            let tp = times[order[p]];
            if tp.secs < ti.secs || (tp.secs == ti.secs && tp.nanos < ti.nanos) {
                break;
            }
            p = p + 1;
        }
        let ghost old_order = order@;
        order.insert(p, i);
        proof {
            let no = order@;
            assert(no == old_order.insert(p as int, i));
            assert forall|a: int| 0 <= a < no.len() implies (#[trigger] no[a]) < i + 1 by {
                if a < p {
                    assert(no[a] == old_order[a]);
                } else if a > p {
                    assert(no[a] == old_order[a - 1]);
                }
            }
            assert forall|x: usize| x < i + 1 implies #[trigger] no.contains(x) by {
                if x == i {
                    assert(no[p as int] == x);
                } else {
                    assert(old_order.contains(x));
                    let w = choose|w: int| 0 <= w < old_order.len() && old_order[w] == x;
                    if w < p {
                        assert(no[w] == x);
                    } else {
                        assert(no[w + 1] == x);
                    }
                }
            }
            assert forall|a: int, b: int| 0 <= a < b < no.len() implies newer_first(t, (#[trigger] no[a]) as int, (#[trigger] no[b]) as int) by {
                if b == p {
                    assert(no[a] == old_order[a]);
                    assert(!ts_lt(t[old_order[a] as int], ti));
                    assert(old_order[a] < i);
                } else if a == p {
                    assert(no[b] == old_order[b - 1]);
                    if b - 1 > p {
                        assert(newer_first(t, old_order[p as int] as int, old_order[b - 1] as int));
                    }
                    assert(ts_lt(t[old_order[b - 1] as int], ti));
                } else {
                    let oa = if a < p { a } else { a - 1 };
                    let ob = if b < p { b } else { b - 1 };
                    assert(no[a] == old_order[oa]);
                    assert(no[b] == old_order[ob]);
                }
            }
        }
        i = i + 1;
    }
    order
}

/// 500 when the anomaly events could not be read.
pub fn fetch_failed() -> (e: ApiError)
    ensures
        e.status == 500,
        e.error@ == "internal_error"@,
        e.message@ == "anomalies fetch failed"@,
{
    api_error(500, "internal_error", "anomalies fetch failed")
}

} // verus!
