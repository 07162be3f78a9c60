//! `POST /v1/ingest/run`: recording an externally executed prompt run.
//!
//! Request validation, the per-project sliding-window limiter, the consent and
//! KEK gates of the benchmark contribution, the normalisation of citation
//! domains, the extraction of message text from a provider payload, the
//! stored row and the answer, and the order of the handler's work as a step
//! function from what just happened to what is done next: the KEK hard gate
//! before anything is written, and the run and its sealed contribution
//! written in one transaction.

use vstd::prelude::*;

use crate::errors::{ApiError, api_error, api_error_msg, error_view};
use crate::json::{collect_text_fragments, text_fragments, JsonValue};
use crate::prompt_runs::PromptRunRow;
use crate::wire::Timestamp;
use crate::order::{insert_sorted_unique, strictly_sorted};
use crate::text::{
    ascii_lower, chars_eq, chars_of, concat3, is_slug_safe, lower_chars, push_chars, slug_safe, str_eq,
    join_strings, join_with, signed_dec, signed_dec_chars, string_of, strings_view, trim, trim_chars, trimmed,
    vecs_view,
};

verus! {

// ---------------------------------------------------------------------------
// Per-project sliding-window limiter
// ---------------------------------------------------------------------------

/// Requests admitted per project within one window.
pub const INGEST_RATE_LIMIT_MAX: usize = 60;

/// The window, in nanoseconds (60 s).
pub const INGEST_RATE_LIMIT_WINDOW_NANOS: u64 = 60_000_000_000;

/// The window, in seconds.
pub const INGEST_RATE_LIMIT_WINDOW_SECS: u64 = 60;

/// Per-project sliding-window limiter: at most `INGEST_RATE_LIMIT_MAX`
/// admissions per project within any `INGEST_RATE_LIMIT_WINDOW_NANOS`. Each
/// project maps to the admission times still counted for it.
pub struct ProjectRateLimiter {
    windows: vstd::hash_map::StringHashMap<Vec<u64>>,
}

/// Whether an admission at `seen` still counts at `now` (a clock reading
/// earlier than `seen` counts as no time elapsed).
pub open spec fn in_window(seen: u64, now: u64) -> bool {
    (if now >= seen { now - seen } else { 0 }) < INGEST_RATE_LIMIT_WINDOW_NANOS
}

/// The admissions of `seen` that still count at `now`, in order.
pub open spec fn still_in_window(seen: Seq<u64>, now: u64) -> Seq<u64>
    decreases seen.len(),
{
    if seen.len() == 0 {
        Seq::empty()
    } else {
        let prev = still_in_window(seen.drop_last(), now);
        if in_window(seen.last(), now) {
            prev.push(seen.last())
        } else {
            prev
        }
    }
}

/// A request of `project` at `now` against the windows `m`: the windows
/// afterwards and whether it was admitted.
pub open spec fn window_check(m: Map<Seq<char>, Seq<u64>>, project: Seq<char>, now: u64) -> (Map<Seq<char>, Seq<u64>>, bool) {
    let w = if m.contains_key(project) { m[project] } else { Seq::empty() };
    let kept = still_in_window(w, now);
    if kept.len() >= INGEST_RATE_LIMIT_MAX {
        (m.insert(project, kept), false)
    } else {
        (m.insert(project, kept.push(now)), true)
    }
}

impl View for ProjectRateLimiter {
    type V = Map<Seq<char>, Seq<u64>>;

    closed spec fn view(&self) -> Map<Seq<char>, Seq<u64>> {
        self.windows@.map_values(|v: Vec<u64>| v@)
    }
}

/// The admissions of `seen` that still count at `now`, in order.
fn keep_in_window(seen: &Vec<u64>, now: u64) -> (kept: Vec<u64>)
    ensures
        kept@ == still_in_window(seen@, now),
{
    let mut kept: Vec<u64> = Vec::new();
    let mut k: usize = 0;
    while k < seen.len()
        invariant
            k <= seen.len(),
            kept@ == still_in_window(seen@.subrange(0, k as int), now),
        decreases seen.len() - k,
    {
        let t = seen[k];
        assert(seen@.subrange(0, k + 1).drop_last() =~= seen@.subrange(0, k as int));
        let elapsed: u64 = if now >= t { now - t } else { 0 };
        if elapsed < INGEST_RATE_LIMIT_WINDOW_NANOS {
            kept.push(t);
        }
        k = k + 1;
    }
    assert(seen@.subrange(0, seen.len() as int) =~= seen@);
    kept
}

impl ProjectRateLimiter {
    /// A limiter that has admitted nothing.
    pub fn new() -> (l: ProjectRateLimiter)
        ensures
            l@ == Map::<Seq<char>, Seq<u64>>::empty(),
    {
        let l = ProjectRateLimiter { windows: vstd::hash_map::StringHashMap::new() };
        assert(l@ =~= Map::<Seq<char>, Seq<u64>>::empty());
        l
    }

    /// Admits a request of `project_id` at `now` (nanoseconds) when fewer
    /// than `INGEST_RATE_LIMIT_MAX` of its admissions fall in the window.
    pub fn check(&mut self, project_id: &str, now: u64) -> (admitted: bool)
        ensures
            (final(self)@, admitted) == window_check(old(self)@, project_id@, now),
    {
        let ghost m0 = self@;
        let mut kept = match self.windows.get(project_id) {
            Some(seen) => keep_in_window(seen, now),
            None => Vec::new(),
        };
        let admitted = kept.len() < INGEST_RATE_LIMIT_MAX;
        if admitted {
            kept.push(now);
        }
        let ghost kv = kept@;
        self.windows.insert(project_id.to_owned(), kept);
        assert(self@ =~= window_check(m0, project_id@, now).0);
        admitted
    }
}

/// Law: a project never has more than `INGEST_RATE_LIMIT_MAX` admissions
/// counted in its window.
pub proof fn lemma_window_bounded(m: Map<Seq<char>, Seq<u64>>, project: Seq<char>, now: u64)
    requires
        m.contains_key(project) ==> m[project].len() <= INGEST_RATE_LIMIT_MAX,
    ensures
        window_check(m, project, now).0[project].len() <= INGEST_RATE_LIMIT_MAX,
{
    let w = if m.contains_key(project) { m[project] } else { Seq::empty() };
    lemma_still_in_window_len(w, now);
}

proof fn lemma_still_in_window_len(s: Seq<u64>, now: u64)
    ensures
        still_in_window(s, now).len() <= s.len(),
    decreases s.len(),
{
    if s.len() > 0 {
        lemma_still_in_window_len(s.drop_last(), now);
    }
}

/// Law: a request of one project never changes another project's window.
pub proof fn lemma_projects_isolated(m: Map<Seq<char>, Seq<u64>>, project: Seq<char>, other: Seq<char>, now: u64)
    requires
        project != other,
    ensures
        window_check(m, project, now).0.contains_key(other) == m.contains_key(other),
        m.contains_key(other) ==> window_check(m, project, now).0[other] == m[other],
{
}


/// Law: once every admission of a project is a full window old, the
/// project's next request is admitted.
pub proof fn lemma_window_recovers(m: Map<Seq<char>, Seq<u64>>, project: Seq<char>, now: u64)
    requires
        m.contains_key(project) ==> forall|i: int|
            0 <= i < m[project].len() ==> !in_window(#[trigger] m[project][i], now),
    ensures
        window_check(m, project, now).1,
{
    let w = if m.contains_key(project) { m[project] } else { Seq::empty() };
    lemma_all_expired(w, now);
}

/// Requests `calls` (project, time) made one after another against the
/// windows `m`: the windows afterwards and each request's answer, in order.
pub open spec fn run_checks(m: Map<Seq<char>, Seq<u64>>, calls: Seq<(Seq<char>, u64)>) -> (Map<Seq<char>, Seq<u64>>, Seq<bool>)
    decreases calls.len(),
{
    if calls.len() == 0 {
        (m, Seq::empty())
    } else {
        let (m1, answers) = run_checks(m, calls.drop_last());
        let (m2, admitted) = window_check(m1, calls.last().0, calls.last().1);
        (m2, answers.push(admitted))
    }
}

/// The times of the admitted requests of `p` among the first `k` calls.
pub open spec fn admitted_times(calls: Seq<(Seq<char>, u64)>, answers: Seq<bool>, p: Seq<char>, k: int) -> Seq<u64>
    decreases k,
{
    if k <= 0 {
        Seq::empty()
    } else {
        let prev = admitted_times(calls, answers, p, k - 1);
        if calls[k - 1].0 == p && answers[k - 1] {
            prev.push(calls[k - 1].1)
        } else {
            prev
        }
    }
}

/// Request times never go backwards.
pub open spec fn nondecreasing(calls: Seq<(Seq<char>, u64)>) -> bool {
    forall|i: int, j: int| 0 <= i <= j < calls.len() ==> #[trigger] calls[i].1 <= #[trigger] calls[j].1
}

/// The window of `p` in `m`, empty when `p` has none.
pub open spec fn window_of(m: Map<Seq<char>, Seq<u64>>, p: Seq<char>) -> Seq<u64> {
    if m.contains_key(p) { m[p] } else { Seq::empty() }
}

proof fn lemma_still_in_window_push(s: Seq<u64>, x: u64, t: u64)
    ensures
        still_in_window(s.push(x), t) == if in_window(x, t) { still_in_window(s, t).push(x) } else { still_in_window(s, t) },
{
    assert(s.push(x).drop_last() =~= s);
}

proof fn lemma_window_refilter(s: Seq<u64>, t: u64, t2: u64)
    requires
        t <= t2,
        forall|i: int| 0 <= i < s.len() ==> #[trigger] s[i] <= t,
    ensures
        still_in_window(still_in_window(s, t), t2) == still_in_window(s, t2),
    decreases s.len(),
{
    if s.len() > 0 {
        let d = s.drop_last();
        let x = s.last();
        assert forall|i: int| 0 <= i < d.len() implies #[trigger] d[i] <= t by {
            assert(d[i] == s[i]);
        }
        lemma_window_refilter(d, t, t2);
        assert(x == s[s.len() - 1]);
        assert(s =~= d.push(x));
        lemma_still_in_window_push(d, x, t);
        lemma_still_in_window_push(d, x, t2);
        if in_window(x, t) {
            lemma_still_in_window_push(still_in_window(d, t), x, t2);
        }
    }
}

proof fn lemma_admitted_times_prefix(calls: Seq<(Seq<char>, u64)>, answers: Seq<bool>, n: int, p: Seq<char>, k: int)
    requires
        0 <= k <= n <= calls.len(),
        n <= answers.len(),
    ensures
        admitted_times(calls.subrange(0, n), answers.subrange(0, n), p, k) == admitted_times(calls, answers, p, k),
    decreases k,
{
    if k > 0 {
        lemma_admitted_times_prefix(calls, answers, n, p, k - 1);
        assert(calls.subrange(0, n)[k - 1] == calls[k - 1]);
        assert(answers.subrange(0, n)[k - 1] == answers[k - 1]);
    }
}

proof fn lemma_admitted_times_bounded(calls: Seq<(Seq<char>, u64)>, answers: Seq<bool>, p: Seq<char>, k: int, t: u64)
    requires
        0 <= k <= calls.len(),
        k <= answers.len(),
        forall|i: int| 0 <= i < k ==> #[trigger] calls[i].1 <= t,
    ensures
        forall|i: int| 0 <= i < admitted_times(calls, answers, p, k).len() ==> #[trigger] admitted_times(calls, answers, p, k)[i] <= t,
    decreases k,
{
    if k > 0 {
        lemma_admitted_times_bounded(calls, answers, p, k - 1, t);
        assert(calls[k - 1].1 <= t);
        let prev = admitted_times(calls, answers, p, k - 1);
        if calls[k - 1].0 == p && answers[k - 1] {
            assert forall|i: int| 0 <= i < prev.push(calls[k - 1].1).len() implies #[trigger] prev.push(calls[k - 1].1)[i] <= t by {
                if i < prev.len() {
                    assert(prev.push(calls[k - 1].1)[i] == prev[i]);
                }
            }
        }
    }
}

/// What a run of requests from a fresh limiter keeps: the answers, one per
/// request, and for every project the admissions still counted at any time
/// from the last request on, which are those of its admitted requests.
proof fn lemma_run_checks_windows(calls: Seq<(Seq<char>, u64)>)
    requires
        nondecreasing(calls),
    ensures
        run_checks(Map::empty(), calls).1.len() == calls.len(),
        forall|p: Seq<char>, t: u64|
            (calls.len() == 0 || calls.last().1 <= t) ==> #[trigger] still_in_window(window_of(run_checks(Map::empty(), calls).0, p), t)
                == still_in_window(admitted_times(calls, run_checks(Map::empty(), calls).1, p, calls.len() as int), t),
        forall|k: int| #![trigger run_checks(Map::empty(), calls).1[k]] 0 <= k < calls.len() ==> run_checks(Map::empty(), calls).1[k]
            == (still_in_window(admitted_times(calls, run_checks(Map::empty(), calls).1, calls[k].0, k), calls[k].1).len()
                < INGEST_RATE_LIMIT_MAX),
    decreases calls.len(),
{
    if calls.len() > 0 {
        let n = calls.len() - 1;
        let pre = calls.drop_last();
        assert(nondecreasing(pre)) by {
            assert forall|i: int, j: int| 0 <= i <= j < pre.len() implies #[trigger] pre[i].1 <= #[trigger] pre[j].1 by {
                assert(pre[i] == calls[i]);
                assert(pre[j] == calls[j]);
            }
        }
        lemma_run_checks_windows(pre);
        let (m1, a1) = run_checks(Map::empty(), pre);
        let (m2, a2) = run_checks(Map::empty(), calls);
        let (q, t) = calls.last();
        assert(a2 == a1.push(window_check(m1, q, t).1));
        assert(pre =~= calls.subrange(0, n));
        assert(a1 =~= a2.subrange(0, n));
        assert forall|p: Seq<char>, k: int| 0 <= k <= n implies #[trigger] admitted_times(pre, a1, p, k) == admitted_times(calls, a2, p, k) by {
            lemma_admitted_times_prefix(calls, a2, n, p, k);
        }
        // the last request is judged on its project's admitted requests in window
        let aq = admitted_times(calls, a2, q, n);
        assert(admitted_times(pre, a1, q, n) == aq);
        if n > 0 {
            assert(pre.last().1 <= t) by {
                assert(pre.last() == calls[n - 1]);
            }
        }
        let kept = still_in_window(window_of(m1, q), t);
        assert(kept == still_in_window(admitted_times(pre, a1, q, n), t));
        assert(a2[n] == (kept.len() < INGEST_RATE_LIMIT_MAX));
        assert forall|k: int| #![trigger a2[k]] 0 <= k < calls.len() implies a2[k]
            == (still_in_window(admitted_times(calls, a2, calls[k].0, k), calls[k].1).len() < INGEST_RATE_LIMIT_MAX) by {
            if k < n {
                assert(a2[k] == a1[k]);
                assert(calls[k] == pre[k]);
                assert(admitted_times(pre, a1, pre[k].0, k) == admitted_times(calls, a2, calls[k].0, k));
            }
        }
        assert forall|p: Seq<char>, t2: u64| calls.last().1 <= t2 implies #[trigger] still_in_window(window_of(m2, p), t2)
            == still_in_window(admitted_times(calls, a2, p, calls.len() as int), t2) by {
            let ap = admitted_times(calls, a2, p, n);
            assert(admitted_times(pre, a1, p, n) == ap);
            assert forall|i: int| 0 <= i < n implies #[trigger] calls[i].1 <= t by {
                assert(calls[i].1 <= calls[n].1);
            }
            lemma_admitted_times_bounded(calls, a2, p, n, t);
            if p == q {
                assert(kept == still_in_window(ap, t));
                lemma_window_refilter(ap, t, t2);
                lemma_still_in_window_push(kept, t, t2);
                lemma_still_in_window_push(ap, t, t2);
                if a2[n] {
                    assert(window_of(m2, p) == kept.push(t));
                    assert(admitted_times(calls, a2, p, calls.len() as int) == ap.push(t));
                } else {
                    assert(window_of(m2, p) == kept);
                    assert(admitted_times(calls, a2, p, calls.len() as int) == ap);
                }
            } else {
                assert(window_of(m2, p) == window_of(m1, p));
                assert(admitted_times(calls, a2, p, calls.len() as int) == ap);
                if n > 0 {
                    assert(pre.last().1 <= t2);
                    assert(still_in_window(window_of(m1, p), t2) == still_in_window(admitted_times(pre, a1, p, n), t2));
                }
            }
        }
    }
}

/// Law: from a fresh limiter, over requests whose times never go backwards,
/// a request of project `p` at time `t` is admitted exactly when fewer than
/// `INGEST_RATE_LIMIT_MAX` earlier admitted requests of `p` fall in the window
/// ending at `t`. Refused requests are never counted, and requests of other
/// projects play no part.
pub proof fn lemma_sliding_window(calls: Seq<(Seq<char>, u64)>)
    requires
        nondecreasing(calls),
    ensures
        run_checks(Map::empty(), calls).1.len() == calls.len(),
        forall|k: int| #![trigger run_checks(Map::empty(), calls).1[k]] 0 <= k < calls.len() ==> run_checks(Map::empty(), calls).1[k]
            == (still_in_window(admitted_times(calls, run_checks(Map::empty(), calls).1, calls[k].0, k), calls[k].1).len()
                < INGEST_RATE_LIMIT_MAX),
{
    lemma_run_checks_windows(calls);
}

/// Law: from a fresh limiter, over requests whose times never go backwards,
/// the window ending at any request's time holds at most
/// `INGEST_RATE_LIMIT_MAX` admitted requests of any one project.
pub proof fn lemma_admissions_per_window_bounded(calls: Seq<(Seq<char>, u64)>)
    requires
        nondecreasing(calls),
    ensures
        forall|p: Seq<char>, k: int| 0 <= k < calls.len() ==> #[trigger] still_in_window(
            admitted_times(calls, run_checks(Map::empty(), calls).1, p, k + 1), calls[k].1).len() <= INGEST_RATE_LIMIT_MAX,
    decreases calls.len(),
{
    lemma_run_checks_windows(calls);
    if calls.len() > 0 {
        let n = calls.len() - 1;
        let pre = calls.drop_last();
        assert(nondecreasing(pre)) by {
            assert forall|i: int, j: int| 0 <= i <= j < pre.len() implies #[trigger] pre[i].1 <= #[trigger] pre[j].1 by {
                assert(pre[i] == calls[i]);
                assert(pre[j] == calls[j]);
            }
        }
        lemma_admissions_per_window_bounded(pre);
        lemma_run_checks_windows(pre);
        let a1 = run_checks(Map::empty(), pre).1;
        let a2 = run_checks(Map::empty(), calls).1;
        assert(a2 == a1.push(window_check(run_checks(Map::empty(), pre).0, calls.last().0, calls.last().1).1));
        assert(pre =~= calls.subrange(0, n));
        assert(a1 =~= a2.subrange(0, n));
        let t = calls[n].1;
        assert forall|p: Seq<char>, k: int| 0 <= k < calls.len() implies #[trigger] still_in_window(
            admitted_times(calls, a2, p, k + 1), calls[k].1).len() <= INGEST_RATE_LIMIT_MAX by {
            lemma_admitted_times_prefix(calls, a2, n, p, k);
            if k < n {
                lemma_admitted_times_prefix(calls, a2, n, p, k + 1);
                assert(pre[k] == calls[k]);
            } else {
                let a = admitted_times(calls, a2, p, n);
                assert(admitted_times(pre, a1, p, n) == a);
                lemma_still_in_window_push(a, t, t);
                if n > 0 {
                    let t0 = calls[n - 1].1;
                    assert(pre[n - 1] == calls[n - 1]);
                    assert(still_in_window(admitted_times(pre, a1, p, n), pre[n - 1].1).len() <= INGEST_RATE_LIMIT_MAX);
                    assert(calls[n - 1].1 <= calls[n].1);
                    assert forall|i: int| 0 <= i < n implies #[trigger] calls[i].1 <= t0 by {
                        assert(calls[i].1 <= calls[n - 1].1);
                    }
                    lemma_admitted_times_bounded(calls, a2, p, n, t0);
                    lemma_window_refilter(a, t0, t);
                    lemma_still_in_window_len(still_in_window(a, t0), t);
                } else {
                    assert(a =~= Seq::<u64>::empty());
                }
                if p == calls[n].0 && a2[n] {
                    assert(a2[n] == (still_in_window(admitted_times(calls, a2, calls[n].0, n), calls[n].1).len()
                        < INGEST_RATE_LIMIT_MAX));
                }
            }
        }
    }
}

proof fn lemma_all_expired(s: Seq<u64>, now: u64)
    requires
        forall|i: int| 0 <= i < s.len() ==> !in_window(#[trigger] s[i], now),
    ensures
        still_in_window(s, now).len() == 0,
    decreases s.len(),
{
    if s.len() > 0 {
        assert(!in_window(s[s.len() - 1], now));
        lemma_all_expired(s.drop_last(), now);
    }
}

// ---------------------------------------------------------------------------
// Request validation
// ---------------------------------------------------------------------------

/// One externally executed run, as submitted by the caller.
#[derive(Debug)]
pub struct IngestRunRequest {
    /// Declared prompt slug within the resolved project. Must already exist.
    pub prompt_slug: String,
    pub provider: String,
    pub model: String,
    /// Canonical external provider payload.
    pub raw_response: Option<JsonValue>,
    /// Caller-supplied run metadata (a JSON object when present).
    pub metadata: Option<JsonValue>,
    /// Compatibility field for clients that captured plain response text.
    pub response_text: Option<String>,
    /// Source domains observed in the run's citations.
    pub citation_domains: Option<Vec<String>>,
    /// The brand's observed rank in this run, if the caller computed it.
    pub observed_rank: Option<i32>,
    /// When the run was observed: seconds since the Unix epoch and the
    /// sub-second nanoseconds. Defaults to now if omitted.
    pub observed_at: Option<(i64, u32)>,
    /// Opt this run into the anonymous benchmark contribution path.
    pub contribute: bool,
}

/// Why a request was rejected at the validation stage.
#[derive(Debug, PartialEq, Eq)]
pub enum ValidationError {
    /// The body is malformed (bad slug, empty model). Maps to `400`.
    BadRequest(String),
    /// `provider` does not resolve to a first-party name or `plugin:<id>`.
    /// Maps to `422 provider_not_supported`.
    ProviderNotSupported(String),
}

/// The verdict on a request, as `(is_provider_error, message)` of the first
/// rule it breaks. `provider_resolves` is whether the trimmed provider name
/// parses in the provider-name grammar.
pub open spec fn ingest_validation(
    slug: Seq<char>,
    model: Seq<char>,
    has_raw: bool,
    has_text: bool,
    metadata_object: Option<bool>,
    provider: Seq<char>,
    provider_resolves: bool,
) -> Option<(bool, Seq<char>)> {
    if !slug_safe(slug) {
        Some((false, "`prompt_slug` `"@ + slug + "` is not slug-safe (lowercase ASCII + digits + hyphens)"@))
    } else if trim(model).len() == 0 {
        Some((false, "`model` must not be empty"@))
    } else if !has_raw && !has_text {
        Some((false, "either `raw_response` or compatibility field `response_text` must be supplied"@))
    } else if metadata_object == Some(false) {
        Some((false, "`metadata` must be a JSON object when supplied"@))
    } else if !provider_resolves {
        Some((true, "provider `"@ + provider + "` is not supported (expected a first-party name or `plugin:<id>`)"@))
    } else {
        None
    }
}

pub open spec fn metadata_shape(m: Option<JsonValue>) -> Option<bool> {
    match m {
        Some(v) => Some(v is Object),
        None => None,
    }
}

pub open spec fn request_validation(req: IngestRunRequest, provider_resolves: bool) -> Option<(bool, Seq<char>)> {
    ingest_validation(
        req.prompt_slug@,
        req.model@,
        req.raw_response is Some,
        req.response_text is Some,
        metadata_shape(req.metadata),
        req.provider@,
        provider_resolves,
    )
}

/// Validates the inbound shape of an external run.
pub fn validate_request(req: &IngestRunRequest, provider_resolves: bool) -> (res: Result<(), ValidationError>)
    ensures
        match request_validation(*req, provider_resolves) {
            None => res is Ok,
            Some((false, m)) => res matches Err(ValidationError::BadRequest(e)) && e@ == m,
            Some((true, m)) => res matches Err(ValidationError::ProviderNotSupported(e)) && e@ == m,
        },
{
    if !is_slug_safe(req.prompt_slug.as_str()) {
        return Err(
            ValidationError::BadRequest(
                concat3(
                    "`prompt_slug` `",
                    req.prompt_slug.as_str(),
                    "` is not slug-safe (lowercase ASCII + digits + hyphens)",
                ),
            ),
        );
    }
    if trimmed(req.model.as_str()).len() == 0 {
        return Err(ValidationError::BadRequest("`model` must not be empty".to_owned()));
    }
    if req.raw_response.is_none() && req.response_text.is_none() {
        return Err(
            ValidationError::BadRequest(
                "either `raw_response` or compatibility field `response_text` must be supplied".to_owned(),
            ),
        );
    }
    if let Some(m) = &req.metadata {
        if !m.is_object() {
            return Err(ValidationError::BadRequest("`metadata` must be a JSON object when supplied".to_owned()));
        }
    }
    if !provider_resolves {
        return Err(
            ValidationError::ProviderNotSupported(
                concat3(
                    "provider `",
                    req.provider.as_str(),
                    "` is not supported (expected a first-party name or `plugin:<id>`)",
                ),
            ),
        );
    }
    Ok(())
}

pub open spec fn rate_limited_message() -> Seq<char> {
    "project rate limit exceeded (60 requests per 60s window)"@
}

/// Admission of an external run: validation first (400 `validation_failed`,
/// 422 `provider_not_supported`), then the project's rate limit (429
/// `rate_limited`). A request refused by validation does not count against
/// the limit.
pub fn admit_ingest(
    req: &IngestRunRequest,
    provider_resolves: bool,
    limiter: &mut ProjectRateLimiter,
    project_id: &str,
    now: u64,
) -> (res: Result<(), ApiError>)
    ensures
        match request_validation(*req, provider_resolves) {
            Some((false, m)) => res matches Err(e) && error_view(e) == (400u16, "validation_failed"@, m)
                && final(limiter)@ == old(limiter)@,
            Some((true, m)) => res matches Err(e) && error_view(e) == (422u16, "provider_not_supported"@, m)
                && final(limiter)@ == old(limiter)@,
            None => {
                let (m, admitted) = window_check(old(limiter)@, project_id@, now);
                &&& final(limiter)@ == m
                &&& admitted ==> res is Ok
                &&& !admitted ==> (res matches Err(e) && error_view(e) == (429u16, "rate_limited"@, rate_limited_message()))
            },
        },
{
    match validate_request(req, provider_resolves) {
        Ok(()) => {},
        Err(ValidationError::BadRequest(msg)) => {
            return Err(api_error_msg(400, "validation_failed", msg));
        },
        Err(ValidationError::ProviderNotSupported(msg)) => {
            return Err(api_error_msg(422, "provider_not_supported", msg));
        },
    }
    if !limiter.check(project_id, now) {
        return Err(api_error(429, "rate_limited", "project rate limit exceeded (60 requests per 60s window)"));
    }
    Ok(())
}

/// The error answered when the prompt slug is not declared in the project.
pub fn prompt_not_found(prompt_slug: &str) -> (e: ApiError)
    ensures
        error_view(e) == (422u16, "prompt_not_found"@, "prompt `"@ + prompt_slug@
            + "` is not declared in this project — add it before ingesting external runs"@),
{
    api_error_msg(
        422,
        "prompt_not_found",
        concat3("prompt `", prompt_slug, "` is not declared in this project — add it before ingesting external runs"),
    )
}

// ---------------------------------------------------------------------------
// Benchmark contribution gates
// ---------------------------------------------------------------------------

/// How loading the project's KEK went.
#[derive(Debug, Clone, Copy, PartialEq, Eq, Structural)]
pub enum KekLoad {
    Loaded,
    /// The secret store holds no KEK for the project.
    Missing,
    /// The load itself failed (the worker task died).
    Failed,
}

/// The KEK hard gate of a `contribute: true` request: a missing KEK is
/// refused `403 kek_missing` before anything is recorded.
pub fn kek_gate(load: KekLoad) -> (res: Result<(), ApiError>)
    ensures
        load == KekLoad::Loaded ==> res is Ok,
        load == KekLoad::Missing ==> (res matches Err(e) && error_view(e) == (403u16, "kek_missing"@,
            "this run requested `contribute: true` but the project has no per-project benchmark KEK — provision one before contributing external runs"@)),
        load == KekLoad::Failed ==> (res matches Err(e) && error_view(e) == (500u16, "internal_error"@,
            "failed to load project benchmark key"@)),
{
    match load {
        KekLoad::Loaded => Ok(()),
        KekLoad::Missing => Err(
            api_error(
                403,
                "kek_missing",
                "this run requested `contribute: true` but the project has no per-project benchmark KEK — provision one before contributing external runs",
            ),
        ),
        KekLoad::Failed => Err(api_error(500, "internal_error", "failed to load project benchmark key")),
    }
}

/// Whether a project's latest consent row is an active opt-in on the current
/// terms (`current_terms`).
pub fn consent_is_active(event: &str, terms_version: &str, current_terms: &str) -> (r: bool)
    ensures
        r == (event@ == "optin"@ && terms_version@ == current_terms@),
{
    str_eq(event, "optin") && str_eq(terms_version, current_terms)
}

/// Why the benchmark contribution leg did (or did not) produce a sealed
/// contribution.
#[derive(Debug, PartialEq, Eq)]
pub enum ContributionStatus {
    /// Opted in on the current terms and a KEK was available: sealed.
    Sealed,
    /// No active opt-in on the current terms: nothing to seal.
    SkippedNotOptedIn,
    /// Opted in but no per-project KEK: flagged, never silently dropped.
    KekMissing,
    /// Redaction or sealing refused the run.
    RedactionRejected { reason: String },
}

/// The contribution status decided before redaction, if any.
pub open spec fn contribution_gate_spec(contribute: bool, opted_in: bool, kek_available: bool) -> Option<ContributionStatus> {
    if !(contribute && opted_in) {
        Some(ContributionStatus::SkippedNotOptedIn)
    } else if !kek_available {
        Some(ContributionStatus::KekMissing)
    } else {
        None
    }
}

/// The check in front of redaction: `None` means the run goes on to be
/// redacted and sealed. A run enters the contribution path only when it both
/// set `contribute` and the project is opted in.
pub fn contribution_gate(contribute: bool, opted_in: bool, kek_available: bool) -> (r: Option<ContributionStatus>)
    ensures
        !(contribute && opted_in) ==> r == Some(ContributionStatus::SkippedNotOptedIn),
        contribute && opted_in && !kek_available ==> r == Some(ContributionStatus::KekMissing),
        contribute && opted_in && kek_available ==> r is None,
        r == contribution_gate_spec(contribute, opted_in, kek_available),
{
    if !(contribute && opted_in) {
        return Some(ContributionStatus::SkippedNotOptedIn);
    }
    if !kek_available {
        return Some(ContributionStatus::KekMissing);
    }
    None
}

/// Why redaction or sealing failed, with the failure's own message.
#[derive(Debug)]
pub enum SealFailure {
    Redaction(String),
    Seal(String),
}

/// The status reported for the outcome of redacting and sealing a run.
pub fn seal_status(outcome: Result<(), SealFailure>) -> (s: ContributionStatus)
    ensures
        match outcome {
            Ok(()) => s is Sealed,
            Err(SealFailure::Redaction(m)) => s matches ContributionStatus::RedactionRejected { reason } && reason@ == m@,
            Err(SealFailure::Seal(m)) => s matches ContributionStatus::RedactionRejected { reason } && reason@ == "seal failed: "@ + m@,
        },
{
    match outcome {
        Ok(()) => ContributionStatus::Sealed,
        Err(SealFailure::Redaction(m)) => ContributionStatus::RedactionRejected { reason: m },
        Err(SealFailure::Seal(m)) => {
            proof {
                reveal_strlit("");
            }
            ContributionStatus::RedactionRejected { reason: concat3("seal failed: ", m.as_str(), "") }
        },
    }
}


// ---------------------------------------------------------------------------
// Citation domains
// ---------------------------------------------------------------------------

/// A domain as stored: trimmed and ASCII-lowercased.
pub open spec fn norm_domain(d: Seq<char>) -> Seq<char> {
    ascii_lower(trim(d))
}

/// Whether `y` is the non-empty normalised form of one of `src`.
pub open spec fn normalised_from(src: Seq<Seq<char>>, y: Seq<char>) -> bool {
    y.len() > 0 && exists|i: int| 0 <= i < src.len() && norm_domain(#[trigger] src[i]) == y
}

/// Law: every stored citation domain is non-empty, trimmed and
/// ASCII-lowercase.
pub proof fn lemma_normalised_domain_is_normal(src: Seq<Seq<char>>, y: Seq<char>)
    requires
        normalised_from(src, y),
    ensures
        y.len() > 0,
        trim(y) == y,
        ascii_lower(y) == y,
{
    let i = choose|i: int| 0 <= i < src.len() && norm_domain(#[trigger] src[i]) == y;
    let t = trim(src[i]);
    crate::text::lemma_trim_edges(src[i]);
    assert(y == ascii_lower(t));
    crate::text::lemma_ascii_lower_char(t[0]);
    crate::text::lemma_ascii_lower_char(t.last());
    assert(y[0] == crate::text::ascii_lower_char(t[0]));
    assert(y.last() == crate::text::ascii_lower_char(t.last()));
    crate::text::lemma_trim_fixed(y);
    assert forall|j: int| 0 <= j < y.len() implies #[trigger] ascii_lower(y)[j] == y[j] by {
        crate::text::lemma_ascii_lower_char(t[j]);
    }
    assert(ascii_lower(y) =~= y);
}

/// Normalises domains: trimmed, lowercased, empties dropped, sorted,
/// duplicates removed.
pub fn normalize_domains(src: &Vec<String>) -> (out: Vec<String>)
    ensures
        strictly_sorted(strings_view(out@)),
        forall|y: Seq<char>| #[trigger] strings_view(out@).contains(y) <==> normalised_from(strings_view(src@), y),
{
    let ghost sv = strings_view(src@);
    let mut acc: Vec<Vec<char>> = Vec::new();
    let mut i: usize = 0;
    while i < src.len()
        invariant
            i <= src.len(),
            sv == strings_view(src@),
            strictly_sorted(vecs_view(acc@)),
            forall|y: Seq<char>| #[trigger] vecs_view(acc@).contains(y) <==> normalised_from(sv.subrange(0, i as int), y),
        decreases src.len() - i,
    {
        assert(sv[i as int] == src@[i as int]@);
        let c = chars_of(src[i].as_str());
        let t = trim_chars(&c);
        let n = lower_chars(&t);
        assert(n@.len() == t@.len());
        let ghost pre = sv.subrange(0, i as int);
        let ghost next = sv.subrange(0, i + 1);
        proof {
            assert forall|y: Seq<char>| normalised_from(next, y) <==> (normalised_from(pre, y) || (y.len() > 0 && y == n@)) by {
                if normalised_from(next, y) {
                    let w = choose|w: int| 0 <= w < next.len() && norm_domain(#[trigger] next[w]) == y;
                    if w < i {
                        assert(pre[w] == next[w]);
                    }
                }
                if normalised_from(pre, y) {
                    let w = choose|w: int| 0 <= w < pre.len() && norm_domain(#[trigger] pre[w]) == y;
                    assert(next[w] == pre[w]);
                }
                if y.len() > 0 && y == n@ {
                    assert(norm_domain(next[i as int]) == y);
                }
            }
        }
        if n.len() > 0 {
            insert_sorted_unique(&mut acc, n);
        }
        i = i + 1;
    }
    assert(sv.subrange(0, src.len() as int) =~= sv);
    let mut out: Vec<String> = Vec::new();
    let mut k: usize = 0;
    while k < acc.len()
        invariant
            k <= acc.len(),
            out@.len() == k,
            forall|q: int| 0 <= q < k ==> (#[trigger] out@[q])@ == acc@[q]@,
        decreases acc.len() - k,
    {
        out.push(string_of(&acc[k]));
        k = k + 1;
    }
    assert(strings_view(out@) =~= vecs_view(acc@));
    out
}

/// The citation domains recorded for a run: the caller's explicit list when
/// it sent one, otherwise the domains extracted from the run's text
/// (`extracted`), normalised either way.
pub fn resolve_citation_domains(req: &IngestRunRequest, extracted: &Vec<String>) -> (out: Vec<String>)
    ensures
        strictly_sorted(strings_view(out@)),
        forall|y: Seq<char>| #[trigger] strings_view(out@).contains(y) <==> normalised_from(
            strings_view(match req.citation_domains { Some(v) => v@, None => extracted@ }),
            y,
        ),
{
    match &req.citation_domains {
        Some(explicit) => normalize_domains(explicit),
        None => normalize_domains(extracted),
    }
}


// ---------------------------------------------------------------------------
// Message text for extraction
// ---------------------------------------------------------------------------

/// The message text that mention and citation extraction reads: the
/// compatibility `response_text` when it is not blank, else the text
/// fragments of the canonical payload joined by newlines, if there are any.
pub open spec fn message_text(req: IngestRunRequest) -> Option<Seq<char>> {
    if req.response_text matches Some(t) && trim(t@).len() > 0 {
        Some(req.response_text.unwrap()@)
    } else {
        match req.raw_response {
            None => None,
            Some(raw) => {
                let f = text_fragments(raw);
                if f.len() == 0 {
                    None
                } else {
                    Some(join_with(f, "\n"@))
                }
            },
        }
    }
}

/// The raw response stored with a run: the caller's provider payload when it
/// sent one, otherwise a compatibility record of what it did send (members in
/// key order, as `serde_json` keeps them).
pub fn persisted_raw_response(
    raw_response: Option<JsonValue>,
    response_text: &Option<String>,
    citation_domains: &Vec<String>,
    observed_rank: Option<i32>,
) -> (r: JsonValue)
    ensures
        match raw_response {
            Some(raw) => r == raw,
            None => r matches JsonValue::Object(m) && {
                &&& m@.len() == 4
                &&& m@[0].0@ == "citation_domains"@
                &&& m@[0].1 matches JsonValue::Array(a) && a@.len() == citation_domains@.len()
                    && forall|i: int| 0 <= i < a@.len() ==> (#[trigger] a@[i] matches JsonValue::Str(d) && d@ == citation_domains@[i]@)
                &&& m@[1].0@ == "kind"@
                &&& m@[1].1 matches JsonValue::Str(k) && k@ == "external_ingest_compat"@
                &&& m@[2].0@ == "observed_rank"@
                &&& match observed_rank {
                    Some(n) => m@[2].1 matches JsonValue::Number(t) && t@ == signed_dec(n as int),
                    None => m@[2].1 is Null,
                }
                &&& m@[3].0@ == "response_text"@
                &&& match response_text {
                    Some(t) => m@[3].1 matches JsonValue::Str(u) && u@ == t@,
                    None => m@[3].1 is Null,
                }
            },
        },
{
    match raw_response {
        Some(raw) => raw,
        None => {
            let mut domains: Vec<JsonValue> = Vec::new();
            let mut i: usize = 0;
            while i < citation_domains.len()
                invariant
                    i <= citation_domains.len(),
                    domains@.len() == i,
                    forall|j: int| 0 <= j < i ==> (#[trigger] domains@[j] matches JsonValue::Str(d) && d@ == citation_domains@[j]@),
                decreases citation_domains.len() - i,
            {
                domains.push(JsonValue::Str(citation_domains[i].clone()));
                i = i + 1;
            }
            let rank = match observed_rank {
                Some(n) => JsonValue::Number(string_of(&signed_dec_chars(n as i64))),
                None => JsonValue::Null,
            };
            let text = match response_text {
                Some(t) => JsonValue::Str(t.clone()),
                None => JsonValue::Null,
            };
            JsonValue::Object(vec![
                ("citation_domains".to_owned(), JsonValue::Array(domains)),
                ("kind".to_owned(), JsonValue::Str("external_ingest_compat".to_owned())),
                ("observed_rank".to_owned(), rank),
                ("response_text".to_owned(), text),
            ])
        },
    }
}

/// When a run was observed: the caller's time, else `now`.
pub open spec fn observed_time(observed_at: Option<(i64, u32)>, now: Timestamp) -> Timestamp {
    match observed_at {
        Some((secs, nanos)) => Timestamp { secs, nanos },
        None => now,
    }
}

/// The row of an ingested run: the caller's provider and model, started and
/// finished when it was observed, status `ok`, the stored raw response, and
/// request parameters recording the source, the caller's metadata (`{}` when
/// absent) and the observed rank.
pub fn ingest_run_row(
    req: IngestRunRequest,
    raw_response: JsonValue,
    prompt_id: String,
    run_id: String,
    now: Timestamp,
) -> (row: PromptRunRow)
    ensures
        row.id == run_id,
        row.prompt_id == prompt_id,
        row.provider == req.provider,
        row.provider_model_version == req.model,
        row.provider_region is None,
        row.started_at == observed_time(req.observed_at, now),
        row.finished_at == Some(observed_time(req.observed_at, now)),
        row.raw_response == raw_response,
        row.request_parameters matches JsonValue::Object(p) && {
            &&& p@.len() == 3
            &&& p@[0].0@ == "metadata"@
            &&& match req.metadata {
                Some(m) => p@[0].1 == m,
                None => p@[0].1 matches JsonValue::Object(e) && e@.len() == 0,
            }
            &&& p@[1].0@ == "observed_rank"@
            &&& match req.observed_rank {
                Some(n) => p@[1].1 matches JsonValue::Number(t) && t@ == signed_dec(n as int),
                None => p@[1].1 is Null,
            }
            &&& p@[2].0@ == "source"@
            &&& p@[2].1 matches JsonValue::Str(src) && src@ == "ingest_api"@
        },
        row.status@ == "ok"@,
        row.error_kind is None,
        row.created_at == now,
{
    let observed = match req.observed_at {
        Some((secs, nanos)) => Timestamp { secs, nanos },
        None => now,
    };
    let metadata = match req.metadata {
        Some(m) => m,
        None => JsonValue::Object(Vec::new()),
    };
    let rank = match req.observed_rank {
        Some(n) => JsonValue::Number(string_of(&signed_dec_chars(n as i64))),
        None => JsonValue::Null,
    };
    let params = JsonValue::Object(vec![
        ("metadata".to_owned(), metadata),
        ("observed_rank".to_owned(), rank),
        ("source".to_owned(), JsonValue::Str("ingest_api".to_owned())),
    ]);
    PromptRunRow {
        id: run_id,
        prompt_id,
        provider: req.provider,
        provider_model_version: req.model,
        provider_region: None,
        started_at: observed,
        finished_at: Some(observed),
        raw_response,
        request_parameters: params,
        status: "ok".to_owned(),
        error_kind: None,
        created_at: now,
    }
}

/// The 202 answer of `POST /v1/ingest/run`.
#[derive(Debug)]
pub struct IngestRunResponse {
    pub run_id: String,
    pub project_id: String,
    pub prompt_slug: String,
    pub provider: String,
    pub observed_at: Timestamp,
    pub contribution: ContributionStatus,
}

/// The answer for a recorded run: 202 with the run and project ids, the
/// prompt and provider, when it was observed, and what became of its
/// benchmark contribution.
pub fn ingest_accepted(
    row: &PromptRunRow,
    project_id: String,
    prompt_slug: String,
    contribution: ContributionStatus,
) -> (r: (u16, IngestRunResponse))
    ensures
        r.0 == 202,
        r.1.run_id == row.id,
        r.1.project_id == project_id,
        r.1.prompt_slug == prompt_slug,
        r.1.provider == row.provider,
        r.1.observed_at == row.started_at,
        r.1.contribution == contribution,
{
    (202, IngestRunResponse {
        run_id: row.id.clone(),
        project_id,
        prompt_slug,
        provider: row.provider.clone(),
        observed_at: row.started_at,
        contribution,
    })
}

/// The text of a run that mention and citation extraction reads.
pub fn message_text_for_extraction(req: &IngestRunRequest) -> (r: Option<String>)
    ensures
        match message_text(*req) {
            Some(t) => r matches Some(s) && s@ == t,
            None => r is None,
        },
{
    if let Some(text) = &req.response_text {
        if trimmed(text.as_str()).len() > 0 {
            return Some(text.clone());
        }
    }
    match &req.raw_response {
        None => None,
        Some(raw) => {
            let mut fragments: Vec<String> = Vec::new();
            collect_text_fragments(raw, &mut fragments);
            assert(strings_view(fragments@) =~= text_fragments(*raw));
            if fragments.len() == 0 {
                None
            } else {
                Some(join_strings(&fragments, "\n"))
            }
        },
    }
}

/// What happens after the run is committed: whether mention and citation
/// extraction runs (a config is loaded and there is text or an annotated
/// citation to read), and whether the caller's explicit domains are stored
/// directly (nothing to extract from, but the caller listed domains).
pub fn post_commit_steps(
    config_loaded: bool,
    has_message_text: bool,
    has_annotation_citations: bool,
    explicit_domains: bool,
) -> (r: (bool, bool))
    ensures
        r.0 == (config_loaded && (has_message_text || has_annotation_citations)),
        r.1 == (!has_message_text && !has_annotation_citations && explicit_domains),
{
    let should_extract = has_message_text || has_annotation_citations;
    (config_loaded && should_extract, !has_message_text && !has_annotation_citations && explicit_domains)
}

// ---------------------------------------------------------------------------
// The order of the ingest handler's work
// ---------------------------------------------------------------------------

/// Where an admitted ingest request stands.
#[derive(Debug, Clone, Copy, PartialEq, Eq, Structural)]
pub enum IngestPhase {
    /// Waiting for the prompt lookup.
    AwaitPrompt,
    /// Waiting for the project's KEK (asked only when the run contributes).
    AwaitKek,
    /// Waiting for the project's latest consent row.
    AwaitConsent,
    /// Waiting for redaction and sealing of the contribution.
    AwaitSeal,
    /// Waiting for the write transaction to open.
    AwaitBegin,
    /// Waiting for the run's insert, inside the transaction.
    AwaitRunInsert,
    /// Waiting for the sealed contribution's insert, inside the same transaction.
    AwaitContributionInsert,
    /// Waiting for the commit.
    AwaitCommit,
    /// Answered.
    Finished,
}

/// What the handler knows of an admitted request so far.
#[derive(Debug)]
pub struct IngestState {
    pub prompt_slug: String,
    pub contribute: bool,
    pub phase: IngestPhase,
    /// How loading the KEK went, once it was asked for.
    pub kek: Option<KekLoad>,
    /// A consent row exists for the project.
    pub consent_row: bool,
    /// That row is an active opt-in on the current terms.
    pub opted_in: bool,
    /// What becomes of the benchmark contribution, once decided.
    pub status: Option<ContributionStatus>,
    /// The run's row has been inserted in the open transaction.
    pub run_inserted: bool,
    /// The sealed contribution has been inserted in the open transaction.
    pub contribution_inserted: bool,
}

/// How looking the prompt up went.
#[derive(Debug, Clone, Copy, PartialEq, Eq, Structural)]
pub enum PromptLookup {
    Found,
    NotFound,
    Failed,
}

/// How reading the project's latest consent row went.
#[derive(Debug, Clone, Copy, PartialEq, Eq, Structural)]
pub enum ConsentRead {
    NoRow,
    /// A row; `active` is `consent_is_active` of its event and terms.
    Row { active: bool },
    Failed,
}

/// How inserting the run's row went.
#[derive(Debug, Clone, Copy, PartialEq, Eq, Structural)]
pub enum RunInsert {
    Inserted,
    /// The prompt's row is gone (foreign-key violation, code 23503).
    ForeignKeyViolation,
    Failed,
}

/// How storing the sealed contribution went.
#[derive(Debug, Clone, Copy, PartialEq, Eq, Structural)]
pub enum ContributionInsert {
    Stored,
    /// The sealed contribution could not be serialised for storage.
    SerializeFailed,
    Failed,
}

/// What just happened in the handler.
#[derive(Debug)]
pub enum IngestEvent {
    PromptLookedUp(PromptLookup),
    KekLoaded(KekLoad),
    ConsentLoaded(ConsentRead),
    /// Redaction and sealing of the run finished.
    Sealed(Result<(), SealFailure>),
    /// The write transaction opened (or not).
    TransactionBegun(bool),
    RunInserted(RunInsert),
    ContributionInserted(ContributionInsert),
    /// The transaction committed (or not).
    Committed(bool),
}

/// What the handler does next.
#[derive(Debug)]
pub enum IngestAction {
    LookUpPrompt,
    LoadKek,
    ReadConsent,
    /// Redact the run and seal it under the project's KEK.
    RedactAndSeal,
    BeginTransaction,
    /// Insert the run's row in the open transaction.
    InsertRun,
    /// Insert the sealed contribution in the same transaction.
    InsertContribution,
    Commit,
    /// Run the post-commit steps and answer 202 with this contribution status.
    Accept { contribution: ContributionStatus },
    /// Answer with this error; an open transaction is dropped uncommitted.
    Refuse(ApiError),
}

/// Whether `e` answers what the handler waits for in phase `p`.
pub open spec fn event_fits(p: IngestPhase, e: IngestEvent) -> bool {
    match p {
        IngestPhase::AwaitPrompt => e is PromptLookedUp,
        IngestPhase::AwaitKek => e is KekLoaded,
        IngestPhase::AwaitConsent => e is ConsentLoaded,
        IngestPhase::AwaitSeal => e is Sealed,
        IngestPhase::AwaitBegin => e is TransactionBegun,
        IngestPhase::AwaitRunInsert => e is RunInserted,
        IngestPhase::AwaitContributionInsert => e is ContributionInserted,
        IngestPhase::AwaitCommit => e is Committed,
        IngestPhase::Finished => false,
    }
}

/// The phases in which the contribution's status is decided.
pub open spec fn status_decided(p: IngestPhase) -> bool {
    p == IngestPhase::AwaitBegin || p == IngestPhase::AwaitRunInsert || p == IngestPhase::AwaitContributionInsert
        || p == IngestPhase::AwaitCommit
}

/// The handler's invariant: past the KEK step a contributing run has its
/// KEK; nothing is inserted before the transaction's run insert; the sealed
/// contribution is inserted only after the run and only when sealed; the
/// commit is asked for only once everything to be written is in the
/// transaction.
pub open spec fn ingest_wf(s: IngestState) -> bool {
    &&& (s.phase == IngestPhase::AwaitConsent || s.phase == IngestPhase::AwaitSeal || status_decided(s.phase)) && s.contribute
        ==> s.kek == Some(KekLoad::Loaded)
    &&& s.phase == IngestPhase::AwaitSeal ==> s.contribute && s.opted_in
    &&& status_decided(s.phase) ==> s.status is Some
    &&& (s.phase != IngestPhase::AwaitContributionInsert && s.phase != IngestPhase::AwaitCommit) ==> !s.run_inserted
    &&& (s.phase == IngestPhase::AwaitContributionInsert || s.phase == IngestPhase::AwaitCommit) ==> s.run_inserted
    &&& s.phase == IngestPhase::AwaitContributionInsert ==> s.status == Some(ContributionStatus::Sealed) && s.consent_row
        && !s.contribution_inserted
    &&& s.phase == IngestPhase::AwaitCommit ==> (s.status == Some(ContributionStatus::Sealed) <==> s.contribution_inserted)
    &&& s.phase != IngestPhase::AwaitCommit ==> !s.contribution_inserted
}

pub open spec fn refuses(a: IngestAction, err: (u16, Seq<char>, Seq<char>)) -> bool {
    a matches IngestAction::Refuse(e) && error_view(e) == err
}

pub open spec fn persist_failed() -> (u16, Seq<char>, Seq<char>) {
    (500u16, "persist_failed"@, "failed to persist ingested run"@)
}

/// The first step of an admitted ingest request: look its prompt up.
pub fn ingest_start(prompt_slug: String, contribute: bool) -> (r: (IngestState, IngestAction))
    ensures
        r.0.prompt_slug == prompt_slug,
        r.0.contribute == contribute,
        r.0.phase == IngestPhase::AwaitPrompt,
        r.0.kek is None,
        r.0.status is None,
        ingest_wf(r.0),
        r.1 is LookUpPrompt,
{
    (IngestState {
        prompt_slug,
        contribute,
        phase: IngestPhase::AwaitPrompt,
        kek: None,
        consent_row: false,
        opted_in: false,
        status: None,
        run_inserted: false,
        contribution_inserted: false,
    }, IngestAction::LookUpPrompt)
}

/// The next step of the ingest handler. The KEK hard gate of a contributing
/// run comes before anything is written; the run and its sealed contribution
/// are written in one transaction and answered only after its commit.
pub fn next_ingest_step(state: IngestState, event: IngestEvent) -> (r: (IngestState, IngestAction))
    requires
        ingest_wf(state),
        event_fits(state.phase, event),
    ensures
        ingest_wf(r.0),
        r.0.contribute == state.contribute,
        // Writes only with the KEK a contributing run needs.
        (r.1 is InsertRun || r.1 is InsertContribution) ==> !state.contribute || r.0.kek == Some(KekLoad::Loaded),
        // The contribution row comes after the run's, before the commit, and only when sealed.
        r.1 is InsertContribution ==> r.0.run_inserted && r.0.status == Some(ContributionStatus::Sealed),
        r.1 is Commit ==> r.0.run_inserted && (r.0.status == Some(ContributionStatus::Sealed) ==> r.0.contribution_inserted),
        r.1 matches IngestAction::Accept { contribution } ==> event == IngestEvent::Committed(true)
            && state.status == Some(contribution),
        r.1 is Refuse || r.1 is Accept ==> r.0.phase == IngestPhase::Finished,
        match event {
            IngestEvent::PromptLookedUp(PromptLookup::Found) => if state.contribute {
                r.1 is LoadKek && r.0.phase == IngestPhase::AwaitKek
            } else {
                r.1 is ReadConsent && r.0.phase == IngestPhase::AwaitConsent
            },
            IngestEvent::PromptLookedUp(PromptLookup::NotFound) => refuses(r.1, (422u16, "prompt_not_found"@, "prompt `"@
                + state.prompt_slug@ + "` is not declared in this project — add it before ingesting external runs"@)),
            IngestEvent::PromptLookedUp(PromptLookup::Failed) => refuses(r.1, (500u16, "internal_error"@, "failed to look up prompt"@)),
            IngestEvent::KekLoaded(KekLoad::Loaded) => r.1 is ReadConsent && r.0.kek == Some(KekLoad::Loaded),
            IngestEvent::KekLoaded(KekLoad::Missing) => !r.0.run_inserted && refuses(r.1, (403u16, "kek_missing"@,
                "this run requested `contribute: true` but the project has no per-project benchmark KEK — provision one before contributing external runs"@)),
            IngestEvent::KekLoaded(KekLoad::Failed) => !r.0.run_inserted && refuses(r.1, (500u16, "internal_error"@,
                "failed to load project benchmark key"@)),
            IngestEvent::ConsentLoaded(ConsentRead::Failed) => refuses(r.1, (500u16, "internal_error"@, "failed to read benchmark consent"@)),
            IngestEvent::ConsentLoaded(c) => {
                let opted = c matches ConsentRead::Row { active } && active;
                &&& r.0.opted_in == opted
                &&& r.0.consent_row == (c is Row)
                &&& match contribution_gate_spec(state.contribute, opted, state.kek == Some(KekLoad::Loaded)) {
                    Some(st) => r.1 is BeginTransaction && r.0.status == Some(st),
                    None => r.1 is RedactAndSeal,
                }
            },
            IngestEvent::Sealed(outcome) => r.1 is BeginTransaction && (r.0.status matches Some(st) && match outcome {
                Ok(()) => st is Sealed,
                Err(SealFailure::Redaction(m)) => (st matches ContributionStatus::RedactionRejected { reason } && reason@ == m@),
                Err(SealFailure::Seal(m)) => (st matches ContributionStatus::RedactionRejected { reason }
                    && reason@ == "seal failed: "@ + m@),
            }),
            IngestEvent::TransactionBegun(ok) => if ok { r.1 is InsertRun } else { refuses(r.1, persist_failed()) },
            IngestEvent::RunInserted(RunInsert::Inserted) => if state.status != Some(ContributionStatus::Sealed) {
                r.1 is Commit
            } else if state.consent_row {
                r.1 is InsertContribution
            } else {
                refuses(r.1, (500u16, "internal_error"@, "sealed contribution had no authorizing consent row"@))
            },
            IngestEvent::RunInserted(RunInsert::ForeignKeyViolation) => refuses(r.1, (422u16, "prompt_not_found"@,
                "prompt was deleted between lookup and insert; retry will re-validate"@)),
            IngestEvent::RunInserted(RunInsert::Failed) => refuses(r.1, persist_failed()),
            IngestEvent::ContributionInserted(ContributionInsert::Stored) => r.1 is Commit,
            IngestEvent::ContributionInserted(ContributionInsert::SerializeFailed) => refuses(r.1, (500u16, "persist_failed"@,
                "failed to serialize sealed contribution"@)),
            IngestEvent::ContributionInserted(ContributionInsert::Failed) => refuses(r.1, (500u16, "persist_failed"@,
                "failed to persist sealed benchmark contribution"@)),
            IngestEvent::Committed(ok) => if ok {
                r.1 matches IngestAction::Accept { contribution } && state.status == Some(contribution)
            } else {
                refuses(r.1, persist_failed())
            },
        },
{
    let mut s = state;
    match event {
        IngestEvent::PromptLookedUp(PromptLookup::Found) => {
            if s.contribute {
                s.phase = IngestPhase::AwaitKek;
                (s, IngestAction::LoadKek)
            } else {
                s.phase = IngestPhase::AwaitConsent;
                (s, IngestAction::ReadConsent)
            }
        },
        IngestEvent::PromptLookedUp(PromptLookup::NotFound) => {
            let e = prompt_not_found(s.prompt_slug.as_str());
            s.phase = IngestPhase::Finished;
            (s, IngestAction::Refuse(e))
        },
        IngestEvent::PromptLookedUp(PromptLookup::Failed) => {
            s.phase = IngestPhase::Finished;
            (s, IngestAction::Refuse(api_error(500, "internal_error", "failed to look up prompt")))
        },
        IngestEvent::KekLoaded(load) => {
            s.kek = Some(load);
            match kek_gate(load) {
                Ok(()) => {
                    s.phase = IngestPhase::AwaitConsent;
                    (s, IngestAction::ReadConsent)
                },
                Err(e) => {
                    s.phase = IngestPhase::Finished;
                    (s, IngestAction::Refuse(e))
                },
            }
        },
        IngestEvent::ConsentLoaded(ConsentRead::Failed) => {
            s.phase = IngestPhase::Finished;
            (s, IngestAction::Refuse(api_error(500, "internal_error", "failed to read benchmark consent")))
        },
        IngestEvent::ConsentLoaded(c) => {
            let (row, opted) = match c {
                ConsentRead::Row { active } => (true, active),
                _ => (false, false),
            };
            s.consent_row = row;
            s.opted_in = opted;
            let kek_available = match s.kek {
                Some(KekLoad::Loaded) => true,
                _ => false,
            };
            match contribution_gate(s.contribute, opted, kek_available) {
                Some(st) => {
                    s.status = Some(st);
                    s.phase = IngestPhase::AwaitBegin;
                    (s, IngestAction::BeginTransaction)
                },
                None => {
                    s.phase = IngestPhase::AwaitSeal;
                    (s, IngestAction::RedactAndSeal)
                },
            }
        },
        IngestEvent::Sealed(outcome) => {
            s.status = Some(seal_status(outcome));
            s.phase = IngestPhase::AwaitBegin;
            (s, IngestAction::BeginTransaction)
        },
        IngestEvent::TransactionBegun(ok) => {
            if ok {
                s.phase = IngestPhase::AwaitRunInsert;
                (s, IngestAction::InsertRun)
            } else {
                s.phase = IngestPhase::Finished;
                (s, IngestAction::Refuse(api_error(500, "persist_failed", "failed to persist ingested run")))
            }
        },
        IngestEvent::RunInserted(RunInsert::Inserted) => {
            let sealed = match &s.status {
                Some(ContributionStatus::Sealed) => true,
                _ => false,
            };
            if !sealed {
                s.run_inserted = true;
                s.phase = IngestPhase::AwaitCommit;
                (s, IngestAction::Commit)
            } else if s.consent_row {
                s.run_inserted = true;
                s.phase = IngestPhase::AwaitContributionInsert;
                (s, IngestAction::InsertContribution)
            } else {
                s.phase = IngestPhase::Finished;
                (s, IngestAction::Refuse(api_error(500, "internal_error", "sealed contribution had no authorizing consent row")))
            }
        },
        IngestEvent::RunInserted(RunInsert::ForeignKeyViolation) => {
            s.phase = IngestPhase::Finished;
            (s, IngestAction::Refuse(api_error(422, "prompt_not_found", "prompt was deleted between lookup and insert; retry will re-validate")))
        },
        IngestEvent::RunInserted(RunInsert::Failed) => {
            s.phase = IngestPhase::Finished;
            (s, IngestAction::Refuse(api_error(500, "persist_failed", "failed to persist ingested run")))
        },
        IngestEvent::ContributionInserted(ContributionInsert::Stored) => {
            s.contribution_inserted = true;
            s.phase = IngestPhase::AwaitCommit;
            (s, IngestAction::Commit)
        },
        IngestEvent::ContributionInserted(ContributionInsert::SerializeFailed) => {
            s.phase = IngestPhase::Finished;
            s.run_inserted = false;
            (s, IngestAction::Refuse(api_error(500, "persist_failed", "failed to serialize sealed contribution")))
        },
        IngestEvent::ContributionInserted(ContributionInsert::Failed) => {
            s.phase = IngestPhase::Finished;
            s.run_inserted = false;
            (s, IngestAction::Refuse(api_error(500, "persist_failed", "failed to persist sealed benchmark contribution")))
        },
        IngestEvent::Committed(ok) => {
            let status = s.status.take();
            s.phase = IngestPhase::Finished;
            s.run_inserted = false;
            s.contribution_inserted = false;
            if ok {
                match status {
                    Some(st) => (s, IngestAction::Accept { contribution: st }),
                    None => (s, IngestAction::Refuse(api_error(500, "persist_failed", "failed to persist ingested run"))),
                }
            } else {
                (s, IngestAction::Refuse(api_error(500, "persist_failed", "failed to persist ingested run")))
            }
        },
    }
}

} // verus!
