//! Crawler observability: the query window, the Grafana series built from
//! the daily trend, and the reading of pasted access-log lines.

use vstd::prelude::*;

use crate::errors::{api_error, ApiError};
use crate::text::{ascii_lower, chars_of, is_lit, lower_chars, trim, trimmed};

verus! {

/// Query of the crawler metrics and ratio.
#[derive(Debug)]
pub struct MetricsQuery {
    pub days: Option<i64>,
    pub include_unverified: Option<bool>,
}

/// Query of the Grafana datasource.
#[derive(Debug)]
pub struct GrafanaQuery {
    pub days: Option<i64>,
    pub target: Option<String>,
    pub include_unverified: Option<bool>,
}

/// One Grafana series: `(value, epoch milliseconds)` points.
#[derive(Debug)]
pub struct GrafanaSeries {
    pub target: String,
    pub datapoints: Vec<(i64, i64)>,
}

/// Access-log lines to ingest.
#[derive(Debug)]
pub struct IngestRequest {
    /// Raw web-server access-log lines, one hit per line.
    pub lines: Vec<String>,
    /// `common` or `combined` (default `combined`).
    pub format: Option<String>,
    /// `hashed` (default), `truncated` or `raw`.
    pub privacy_mode: Option<String>,
}

/// Result of an ingest.
#[derive(Debug)]
pub struct IngestResult {
    /// Lines that parsed into a recognised crawler hit.
    pub parsed: usize,
    /// Events newly written.
    pub ingested: u64,
    /// Lines that did not parse, or were not crawler hits.
    pub skipped: usize,
}

/// The window in days (30 when the query names none): 400 `invalid_window`
/// outside [1, 365].
pub fn validate_days(value: Option<i64>) -> (r: Result<i64, ApiError>)
    ensures
        ({
            let v: int = match value {
                Some(v) => v as int,
                None => 30,
            };
            match r {
                Ok(d) => 1 <= v <= 365 && d == v,
                Err(e) => !(1 <= v <= 365) && e.status == 400 && e.error@ == "invalid_window"@
                    && e.message@ == "`days` must be in [1, 365]"@,
            }
        }),
{
    let v = match value {
        Some(v) => v,
        None => 30,
    };
    if v < 1 || v > 365 {
        return Err(api_error(400, "invalid_window", "`days` must be in [1, 365]"));
    }
    Ok(v)
}

/// Access-log format.
#[derive(Debug, Clone, Copy, PartialEq, Eq, Structural)]
pub enum AccessLogFormat {
    Common,
    Combined,
}

/// How client IPs are kept.
#[derive(Debug, Clone, Copy, PartialEq, Eq, Structural)]
pub enum PrivacyMode {
    Raw,
    Truncated,
    Hashed,
}

/// The log format a request names, compared ignoring ASCII case: `common`,
/// anything else `combined`.
pub fn parse_format(raw: Option<&str>) -> (f: AccessLogFormat)
    ensures
        f == (match raw {
            Some(s) if ascii_lower(s@) == "common"@ => AccessLogFormat::Common,
            _ => AccessLogFormat::Combined,
        }),
{
    match raw {
        Some(s) => {
            let l = lower_chars(&chars_of(s));
            if is_lit(&l, "common") {
                AccessLogFormat::Common
            } else {
                AccessLogFormat::Combined
            }
        },
        None => AccessLogFormat::Combined,
    }
}

/// The privacy mode a request names, compared ignoring ASCII case: `raw`,
/// `truncated`, anything else `hashed`.
pub fn parse_privacy_mode(raw: Option<&str>) -> (m: PrivacyMode)
    ensures
        m == (match raw {
            Some(s) if ascii_lower(s@) == "raw"@ => PrivacyMode::Raw,
            Some(s) if ascii_lower(s@) == "truncated"@ => PrivacyMode::Truncated,
            _ => PrivacyMode::Hashed,
        }),
{
    match raw {
        Some(s) => {
            let l = lower_chars(&chars_of(s));
            if is_lit(&l, "raw") {
                PrivacyMode::Raw
            } else if is_lit(&l, "truncated") {
                PrivacyMode::Truncated
            } else {
                PrivacyMode::Hashed
            }
        },
        None => PrivacyMode::Hashed,
    }
}

/// The lines to ingest: 400 `empty_ingest` when there are none.
pub fn check_ingest_lines(req: &IngestRequest) -> (r: Result<(), ApiError>)
    ensures
        r is Ok <==> req.lines@.len() > 0,
        r matches Err(e) ==> e.status == 400 && e.error@ == "empty_ingest"@
            && e.message@ == "`lines` must contain at least one access-log line"@,
{
    if req.lines.len() == 0 {
        return Err(api_error(400, "empty_ingest", "`lines` must contain at least one access-log line"));
    }
    Ok(())
}

/// Whether a line is blank, and skipped without parsing.
pub fn is_blank_line(line: &str) -> (r: bool)
    ensures
        r == (trim(line@).len() == 0),
{
    trimmed(line).len() == 0
}

/// What became of one access-log line.
#[derive(Debug, Clone, Copy, PartialEq, Eq, Structural)]
pub enum LineOutcome {
    /// Blank line.
    Blank,
    /// Not an access-log line of the format.
    Unparsed,
    /// A hit whose user agent is no crawler.
    NotCrawler,
    /// A crawler hit, normalised into an event.
    Event,
}

/// The number of lines with an event among `o`.
pub open spec fn event_count(o: Seq<LineOutcome>) -> nat
    decreases o.len(),
{
    if o.len() == 0 {
        0
    } else {
        event_count(o.drop_last()) + if o.last() == LineOutcome::Event { 1nat } else { 0nat }
    }
}

/// The ingest result: lines that became events are parsed, all others are
/// skipped, and `ingested` events were newly written.
pub fn ingest_result(outcomes: &Vec<LineOutcome>, ingested: u64) -> (r: IngestResult)
    ensures
        r.parsed == event_count(outcomes@),
        r.skipped == outcomes@.len() - event_count(outcomes@),
        r.ingested == ingested,
{
    let mut parsed: usize = 0;
    let mut skipped: usize = 0;
    let mut i: usize = 0;
    while i < outcomes.len()
        invariant
            i <= outcomes@.len(),
            parsed == event_count(outcomes@.take(i as int)),
            parsed + skipped == i,
        decreases outcomes@.len() - i,
    {
        proof {
            assert(outcomes@.take(i + 1).drop_last() == outcomes@.take(i as int));
            assert(outcomes@.take(i + 1).last() == outcomes@[i as int]);
        }
        if outcomes[i] == LineOutcome::Event {
            parsed = parsed + 1;
        } else {
            skipped = skipped + 1;
        }
        i = i + 1;
    }
    assert(outcomes@.take(outcomes@.len() as int) == outcomes@);
    IngestResult { parsed, ingested, skipped }
}

/// The series name of a Grafana query (`verified crawler hits` by default).
pub fn grafana_target(q: &GrafanaQuery) -> (t: String)
    ensures
        t@ == (match q.target {
            Some(s) => s@,
            None => "verified crawler hits"@,
        }),
{
    match &q.target {
        Some(s) => s.clone(),
        None => "verified crawler hits".to_string(),
    }
}

/// Epoch milliseconds of midnight UTC of the day a `%Y-%m-%d` text names.
pub uninterp spec fn day_start_millis(day: Seq<char>) -> Option<i64>;

/// `chrono::NaiveDate::parse_from_str(day, "%Y-%m-%d")`, taken at 00:00:00
/// UTC, in epoch milliseconds.
#[verifier::external_body]
fn parse_day_millis(day: &str) -> (r: Option<i64>)
    ensures
        r == day_start_millis(day@),
{
    chrono::NaiveDate::parse_from_str(day, "%Y-%m-%d")
        .ok()
        .and_then(|d| d.and_hms_opt(0, 0, 0))
        .map(|dt| dt.and_utc().timestamp_millis())
}

/// The points of the daily trend `(day, hits)` whose day parses:
/// `(hits, midnight of the day)`, in trend order.
pub open spec fn trend_points(trend: Seq<(String, i64)>) -> Seq<(i64, i64)>
    decreases trend.len(),
{
    if trend.len() == 0 {
        Seq::empty()
    } else {
        let last = trend.last();
        trend_points(trend.drop_last()) + match day_start_millis(last.0@) {
            Some(ms) => seq![(last.1, ms)],
            None => Seq::empty(),
        }
    }
}

/// The Grafana datapoints of a daily trend.
pub fn grafana_datapoints(trend: &Vec<(String, i64)>) -> (points: Vec<(i64, i64)>)
    ensures
        points@ == trend_points(trend@),
{
    let mut points: Vec<(i64, i64)> = Vec::new();
    let mut i: usize = 0;
    while i < trend.len()
        invariant
            i <= trend@.len(),
            points@ == trend_points(trend@.take(i as int)),
        decreases trend@.len() - i,
    {
        proof {
            assert(trend@.take(i + 1).drop_last() == trend@.take(i as int));
            assert(trend@.take(i + 1).last() == trend@[i as int]);
        }
        let ghost before = points@;
        match parse_day_millis(trend[i].0.as_str()) {
            Some(ms) => {
                points.push((trend[i].1, ms));
                assert(points@ =~= before + seq![(trend@[i as int].1, ms)]);
            },
            None => {
                assert(points@ =~= before + Seq::<(i64, i64)>::empty());
            },
        }
        i = i + 1;
    }
    assert(trend@.take(trend@.len() as int) == trend@);
    points
}

/// 500 when crawler data could not be read or written; `what` names the
/// failed operation.
pub fn crawler_failure(what: &str) -> (e: ApiError)
    ensures
        e.status == 500,
        e.error@ == "internal_error"@,
        e.message@ == what@,
{
    api_error(500, "internal_error", what)
}

} // verus!
