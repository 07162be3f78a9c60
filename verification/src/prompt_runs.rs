//! `POST /v1/prompt-runs`: request validation and the dispatch decision of
//! the one-shot prompt-run write endpoint.

use vstd::prelude::*;

use crate::errors::{ApiError, api_error, api_error_msg, error_view};
use crate::json::{first_member, JsonValue};
use crate::text::{chars_of, concat3, is_slug_safe, slug_safe, str_eq, trim, trimmed, chars_eq};
use crate::wire::Timestamp;

verus! {

/// Body of `POST /v1/prompt-runs`.
#[derive(Debug)]
pub struct CreatePromptRunRequest {
    pub prompt_name: String,
    pub provider: String,
    pub triggered_by: Option<String>,
}

/// The providers this endpoint dispatches to.
pub open spec fn supported_provider(s: Seq<char>) -> bool {
    ||| s == "openai"@
    ||| s == "anthropic"@
    ||| s == "gemini"@
    ||| s == "perplexity"@
    ||| s == "grok"@
    ||| s == "mistral"@
    ||| s == "openrouter"@
    ||| s == "mock"@
}

/// Whether `s` names a supported provider.
pub fn is_supported_provider(s: &str) -> (r: bool)
    ensures
        r == supported_provider(s@),
{
    str_eq(s, "openai") || str_eq(s, "anthropic") || str_eq(s, "gemini") || str_eq(s, "perplexity")
        || str_eq(s, "grok") || str_eq(s, "mistral") || str_eq(s, "openrouter") || str_eq(s, "mock")
}

pub open spec fn unknown_provider_message(p: Seq<char>) -> Seq<char> {
    "unknown provider `"@ + p
        + "` (supported: openai, anthropic, gemini, perplexity, grok, mistral, openrouter, mock)"@
}

/// The validation verdict on a request: `None` when it is valid, else the
/// message of the first rule it breaks.
pub open spec fn prompt_run_error(name: Seq<char>, provider: Seq<char>) -> Option<Seq<char>> {
    let t = trim(name);
    if t.len() == 0 {
        Some("`prompt_name` must not be empty"@)
    } else if t != name {
        Some("`prompt_name` `"@ + name + "` has leading or trailing whitespace; trim it first"@)
    } else if !slug_safe(t) {
        Some("`prompt_name` `"@ + name + "` is not slug-safe (lowercase ASCII + digits + hyphens)"@)
    } else if !supported_provider(provider) {
        Some(unknown_provider_message(provider))
    } else {
        None
    }
}

/// Validates the request shape. Returns the canonical `(prompt_name,
/// provider)` pair ready for dispatch, or the message of the first rule the
/// request breaks.
pub fn validate_request(request: &CreatePromptRunRequest) -> (res: Result<(String, String), String>)
    ensures
        match prompt_run_error(request.prompt_name@, request.provider@) {
            None => res matches Ok(p) && p.0 == request.prompt_name && p.1 == request.provider,
            Some(m) => res matches Err(e) && e@ == m,
        },
{
    let name = request.prompt_name.as_str();
    let t = trimmed(name);
    if t.len() == 0 {
        return Err("`prompt_name` must not be empty".to_owned());
    }
    let nv = chars_of(name);
    if !chars_eq(&t, &nv) {
        return Err(concat3("`prompt_name` `", name, "` has leading or trailing whitespace; trim it first"));
    }
    if !is_slug_safe(name) {
        return Err(concat3("`prompt_name` `", name, "` is not slug-safe (lowercase ASCII + digits + hyphens)"));
    }
    if !is_supported_provider(request.provider.as_str()) {
        return Err(
            concat3(
                "unknown provider `",
                request.provider.as_str(),
                "` (supported: openai, anthropic, gemini, perplexity, grok, mistral, openrouter, mock)",
            ),
        );
    }
    Ok((request.prompt_name.clone(), request.provider.clone()))
}

/// How a validated run is executed.
#[derive(Debug, Clone, Copy, PartialEq, Eq, Structural)]
pub enum DispatchPath {
    /// The mock provider: a deterministic run persisted synchronously.
    Mock,
    /// A live provider, driven through the orchestrator.
    Live,
}

/// What is known about the deployment when a run is requested: whether the
/// prompt is declared in the project, whether the orchestrator config and
/// provider registry were loaded at boot, and whether the provider name
/// resolves in the orchestrator's grammar.
#[derive(Debug, Clone, Copy)]
pub struct DispatchContext {
    pub prompt_declared: bool,
    pub config_loaded: bool,
    pub registry_loaded: bool,
    pub provider_resolves: bool,
}

pub open spec fn prompt_not_declared_message(name: Seq<char>) -> Seq<char> {
    "prompt `"@ + name + "` is not declared in this project — add it with `ogeo prompt add` first"@
}

pub open spec fn no_config_message() -> Seq<char> {
    "API server booted without a readable `opengeo.yaml` (set OGEO_CONFIG or place opengeo.yaml in CWD); live providers cannot be dispatched."@
}

pub open spec fn no_registry_message() -> Seq<char> {
    "API server booted without a provider registry; check logs for the boot-time failure."@
}

/// The decision of `POST /v1/prompt-runs` before anything is executed.
pub open spec fn dispatch_result(
    name: Seq<char>,
    provider: Seq<char>,
    ctx: DispatchContext,
) -> Result<DispatchPath, (u16, Seq<char>, Seq<char>)> {
    match prompt_run_error(name, provider) {
        Some(m) => Err((400u16, "validation_failed"@, m)),
        None => if !ctx.prompt_declared {
            Err((404u16, "prompt_not_found"@, prompt_not_declared_message(name)))
        } else if provider == "mock"@ {
            Ok(DispatchPath::Mock)
        } else if !ctx.config_loaded {
            Err((503u16, "orchestrator_unconfigured"@, no_config_message()))
        } else if !ctx.registry_loaded {
            Err((503u16, "orchestrator_unconfigured"@, no_registry_message()))
        } else if !ctx.provider_resolves {
            Err((400u16, "validation_failed"@, "unknown provider `"@ + provider + "`"@))
        } else {
            Ok(DispatchPath::Live)
        },
    }
}

/// Law: an accepted run goes to the mock provider exactly when its provider
/// is `mock`; with the prompt declared and the orchestrator and the provider
/// available, every other valid provider is dispatched live.
pub proof fn lemma_dispatch_mock_iff(name: Seq<char>, provider: Seq<char>, ctx: DispatchContext)
    ensures
        dispatch_result(name, provider, ctx) matches Ok(p) ==> (p == DispatchPath::Mock <==> provider == "mock"@),
        prompt_run_error(name, provider) is None && ctx.prompt_declared && ctx.config_loaded && ctx.registry_loaded
            && ctx.provider_resolves && provider != "mock"@ ==> dispatch_result(name, provider, ctx) == Ok::<
            DispatchPath,
            (u16, Seq<char>, Seq<char>),
        >(DispatchPath::Live),
{
}

/// Validates a run request and chooses how it is executed.
pub fn plan_prompt_run(request: &CreatePromptRunRequest, ctx: DispatchContext) -> (res: Result<DispatchPath, ApiError>)
    ensures
        match dispatch_result(request.prompt_name@, request.provider@, ctx) {
            Ok(p) => res == Ok::<DispatchPath, ApiError>(p),
            Err(e) => res matches Err(err) && error_view(err) == e,
        },
        res matches Ok(p) ==> (p == DispatchPath::Mock <==> request.provider@ == "mock"@),
        prompt_run_error(request.prompt_name@, request.provider@) is None && ctx.prompt_declared && ctx.config_loaded
            && ctx.registry_loaded && ctx.provider_resolves && request.provider@ != "mock"@
            ==> res == Ok::<DispatchPath, ApiError>(DispatchPath::Live),
{
    proof {
        lemma_dispatch_mock_iff(request.prompt_name@, request.provider@, ctx);
    }
    if let Err(msg) = validate_request(request) {
        return Err(api_error_msg(400, "validation_failed", msg));
    }
    if !ctx.prompt_declared {
        return Err(
            api_error_msg(
                404,
                "prompt_not_found",
                concat3(
                    "prompt `",
                    request.prompt_name.as_str(),
                    "` is not declared in this project — add it with `ogeo prompt add` first",
                ),
            ),
        );
    }
    if str_eq(request.provider.as_str(), "mock") {
        return Ok(DispatchPath::Mock);
    }
    if !ctx.config_loaded {
        return Err(
            api_error(
                503,
                "orchestrator_unconfigured",
                "API server booted without a readable `opengeo.yaml` (set OGEO_CONFIG or place opengeo.yaml in CWD); live providers cannot be dispatched.",
            ),
        );
    }
    if !ctx.registry_loaded {
        return Err(
            api_error(
                503,
                "orchestrator_unconfigured",
                "API server booted without a provider registry; check logs for the boot-time failure.",
            ),
        );
    }
    if !ctx.provider_resolves {
        return Err(
            api_error_msg(400, "validation_failed", concat3("unknown provider `", request.provider.as_str(), "`")),
        );
    }
    Ok(DispatchPath::Live)
}

/// The error answered when persisting a run fails. A foreign-key violation
/// on the mock path means the prompt was deleted between lookup and insert.
pub fn persist_error(path: DispatchPath, fk_violation: bool) -> (e: ApiError)
    ensures
        path == DispatchPath::Mock && fk_violation ==> error_view(e) == (404u16, "prompt_not_found"@,
            "prompt was deleted between lookup and insert; retry will re-validate"@),
        path == DispatchPath::Mock && !fk_violation ==> error_view(e) == (500u16, "persist_failed"@,
            "failed to persist mock prompt run"@),
        path == DispatchPath::Live ==> error_view(e) == (500u16, "persist_failed"@,
            "failed to persist live prompt run"@),
{
    match path {
        DispatchPath::Mock => if fk_violation {
            api_error(404, "prompt_not_found", "prompt was deleted between lookup and insert; retry will re-validate")
        } else {
            api_error(500, "persist_failed", "failed to persist mock prompt run")
        },
        DispatchPath::Live => api_error(500, "persist_failed", "failed to persist live prompt run"),
    }
}

// ---------------------------------------------------------------------------
// The stored run and the 202 answer
// ---------------------------------------------------------------------------

/// A prompt-run row as it is stored.
#[derive(Debug)]
pub struct PromptRunRow {
    pub id: String,
    pub prompt_id: String,
    pub provider: String,
    pub provider_model_version: String,
    pub provider_region: Option<String>,
    pub started_at: Timestamp,
    pub finished_at: Option<Timestamp>,
    pub raw_response: JsonValue,
    pub request_parameters: JsonValue,
    pub status: String,
    pub error_kind: Option<String>,
    pub created_at: Timestamp,
}

/// The 202 answer of `POST /v1/prompt-runs`.
#[derive(Debug)]
pub struct CreatePromptRunResponse {
    pub status: String,
    pub run_id: String,
    pub project_id: String,
    pub prompt_name: String,
    pub provider: String,
    pub dispatched_at: Timestamp,
}

/// The record the orchestrator returns for the requested
/// `(prompt_name, provider)` cell.
#[derive(Debug)]
pub struct OrchestratorRecord {
    pub id: String,
    /// Wire name of the provider that served the run.
    pub provider: String,
    pub provider_model_version: String,
    pub provider_region: Option<String>,
    pub started_at: Timestamp,
    pub finished_at: Option<Timestamp>,
    pub raw_response: JsonValue,
    pub request_parameters: JsonValue,
    /// Wire name of the run status.
    pub status: String,
    /// Wire name of the error kind of a failed run.
    pub error_kind: Option<String>,
}

/// The JSON value of an optional text: the text, or `null`.
pub open spec fn optional_text(t: Option<String>) -> JsonValue {
    match t {
        Some(s) => JsonValue::Str(s),
        None => JsonValue::Null,
    }
}

fn optional_text_value(t: &Option<String>) -> (v: JsonValue)
    ensures
        v == optional_text(*t),
{
    match t {
        Some(s) => JsonValue::Str(s.clone()),
        None => JsonValue::Null,
    }
}

/// The row of a mock run: provider `mock` at version `mock-1.0`, started and
/// finished at `now`, status `ok`, a deterministic raw response naming the
/// prompt, and the caller's `triggered_by` as the request parameters.
pub fn mock_run_row(request: &CreatePromptRunRequest, prompt_id: String, run_id: String, now: Timestamp) -> (row: PromptRunRow)
    ensures
        row.id == run_id,
        row.prompt_id == prompt_id,
        row.provider@ == "mock"@,
        row.provider_model_version@ == "mock-1.0"@,
        row.provider_region is None,
        row.started_at == now,
        row.finished_at == Some(now),
        row.status@ == "ok"@,
        row.error_kind is None,
        row.created_at == now,
        row.raw_response matches JsonValue::Object(m) && {
            &&& m@.len() == 3
            &&& m@[0].0@ == "kind"@
            &&& m@[0].1 matches JsonValue::Str(k) && k@ == "mock"@
            &&& m@[1].0@ == "note"@
            &&& m@[1].1 matches JsonValue::Str(n) && n@ == "Deterministic mock response from POST /v1/prompt-runs"@
            &&& m@[2].0@ == "prompt_name"@ && m@[2].1 == JsonValue::Str(request.prompt_name)
        },
        row.request_parameters matches JsonValue::Object(p) && p@.len() == 1 && p@[0].0@ == "triggered_by"@
            && p@[0].1 == optional_text(request.triggered_by),
{
    let raw = JsonValue::Object(vec![
        ("kind".to_owned(), JsonValue::Str("mock".to_owned())),
        ("note".to_owned(), JsonValue::Str("Deterministic mock response from POST /v1/prompt-runs".to_owned())),
        ("prompt_name".to_owned(), JsonValue::Str(request.prompt_name.clone())),
    ]);
    let params = JsonValue::Object(vec![("triggered_by".to_owned(), optional_text_value(&request.triggered_by))]);
    PromptRunRow {
        id: run_id,
        prompt_id,
        provider: "mock".to_owned(),
        provider_model_version: "mock-1.0".to_owned(),
        provider_region: None,
        started_at: now,
        finished_at: Some(now),
        raw_response: raw,
        request_parameters: params,
        status: "ok".to_owned(),
        error_kind: None,
        created_at: now,
    }
}

/// Whether `after` is the object `before` with its `triggered_by` member set
/// to `v`.
pub open spec fn member_set(before: Seq<(String, JsonValue)>, after: Seq<(String, JsonValue)>, v: JsonValue) -> bool {
    match first_member(before, "triggered_by"@) {
        Some(i) => after.len() == before.len() && after[i].0@ == "triggered_by"@ && after[i].1 == v
            && forall|j: int| 0 <= j < before.len() && j != i ==> #[trigger] after[j] == before[j],
        None => after.len() == before.len() + 1 && after[before.len() as int].0@ == "triggered_by"@
            && after[before.len() as int].1 == v
            && forall|j: int| 0 <= j < before.len() ==> #[trigger] after[j] == before[j],
    }
}

/// Sets `triggered_by` in the orchestrator's request parameters when they are
/// an object, so the stored live row carries the same provenance as a mock
/// row; other values are returned unchanged.
pub fn merge_triggered_by(params: JsonValue, triggered_by: &Option<String>) -> (r: JsonValue)
    ensures
        match params {
            JsonValue::Object(m) => r matches JsonValue::Object(m2) && member_set(m@, m2@, optional_text(*triggered_by)),
            other => r == other,
        },
{
    match params {
        JsonValue::Object(mut m) => {
            let v = optional_text_value(triggered_by);
            let ghost before = m@;
            proof {
                reveal_strlit("triggered_by");
                crate::json::lemma_first_member(before, "triggered_by"@);
            }
            let key = "triggered_by".to_owned();
            match crate::json::find_member(&m, "triggered_by") {
                Some(i) => {
                    m.set(i, (key, v));
                    assert(m@ == before.update(i as int, m@[i as int]));
                },
                None => {
                    m.push((key, v));
                    assert(m@ == before.push(m@[before.len() as int]));
                },
            }
            JsonValue::Object(m)
        },
        other => other,
    }
}

/// The row of a live run from the orchestrator's record for the requested
/// cell; no record is a 500.
pub fn live_run_row(
    record: Option<OrchestratorRecord>,
    request: &CreatePromptRunRequest,
    prompt_id: String,
    now: Timestamp,
) -> (r: Result<PromptRunRow, ApiError>)
    ensures
        match record {
            None => r matches Err(e) && error_view(e) == (500u16, "internal_error"@,
                "orchestrator returned no record for the requested cell"@),
            Some(rec) => r matches Ok(row) && {
                &&& row.id == rec.id
                &&& row.prompt_id == prompt_id
                &&& row.provider == rec.provider
                &&& row.provider_model_version == rec.provider_model_version
                &&& row.provider_region == rec.provider_region
                &&& row.started_at == rec.started_at
                &&& row.finished_at == rec.finished_at
                &&& row.raw_response == rec.raw_response
                &&& match rec.request_parameters {
                    JsonValue::Object(m) => row.request_parameters matches JsonValue::Object(m2)
                        && member_set(m@, m2@, optional_text(request.triggered_by)),
                    other => row.request_parameters == other,
                }
                &&& row.status == rec.status
                &&& row.error_kind == rec.error_kind
                &&& row.created_at == now
            },
        },
{
    match record {
        None => Err(api_error(500, "internal_error", "orchestrator returned no record for the requested cell")),
        Some(rec) => {
            let params = merge_triggered_by(rec.request_parameters, &request.triggered_by);
            Ok(PromptRunRow {
                id: rec.id,
                prompt_id,
                provider: rec.provider,
                provider_model_version: rec.provider_model_version,
                provider_region: rec.provider_region,
                started_at: rec.started_at,
                finished_at: rec.finished_at,
                raw_response: rec.raw_response,
                request_parameters: params,
                status: rec.status,
                error_kind: rec.error_kind,
                created_at: now,
            })
        },
    }
}

/// The 202 answer for a stored run: its status, id and start time, with the
/// request's prompt and provider.
pub fn accepted_response(row: &PromptRunRow, request: CreatePromptRunRequest, project_id: String) -> (r: (u16, CreatePromptRunResponse))
    ensures
        r.0 == 202,
        r.1.status == row.status,
        r.1.run_id == row.id,
        r.1.project_id == project_id,
        r.1.prompt_name == request.prompt_name,
        r.1.provider == request.provider,
        r.1.dispatched_at == row.started_at,
{
    (202, CreatePromptRunResponse {
        status: row.status.clone(),
        run_id: row.id.clone(),
        project_id,
        prompt_name: request.prompt_name,
        provider: request.provider,
        dispatched_at: row.started_at,
    })
}

} // verus!
