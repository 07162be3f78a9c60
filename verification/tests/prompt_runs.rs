use anseo_api::json::JsonValue;
use anseo_api::prompt_runs::{
    accepted_response, live_run_row, merge_triggered_by, mock_run_row, validate_request, CreatePromptRunRequest,
    OrchestratorRecord,
};
use anseo_api::wire::Timestamp;

fn req(prompt_name: &str, provider: &str) -> CreatePromptRunRequest {
    CreatePromptRunRequest { prompt_name: prompt_name.into(), provider: provider.into(), triggered_by: None }
}

#[test]
fn validate_accepts_canonical_request() {
    assert!(validate_request(&req("vector-db", "openai")).is_ok());
}

#[test]
fn validate_rejects_empty_prompt_name() {
    let err = validate_request(&req("  ", "openai")).unwrap_err();
    assert!(err.contains("must not be empty"));
}

#[test]
fn validate_rejects_non_slug_prompt_name() {
    let err = validate_request(&req("Vector DB", "openai")).unwrap_err();
    assert!(err.contains("slug-safe"));
}

#[test]
fn validate_rejects_unknown_provider() {
    let err = validate_request(&req("vector-db", "bogus")).unwrap_err();
    assert!(err.contains("unknown provider"));
    assert!(err.contains("openai"));
}

#[test]
fn validate_accepts_all_phase2_providers() {
    for p in ["openai", "anthropic", "gemini", "perplexity", "grok", "mistral", "openrouter", "mock"] {
        assert!(validate_request(&req("vector-db", p)).is_ok(), "provider `{p}` should validate");
    }
}

fn request(triggered_by: Option<&str>) -> CreatePromptRunRequest {
    CreatePromptRunRequest {
        prompt_name: "vector-db".into(),
        provider: "mock".into(),
        triggered_by: triggered_by.map(str::to_string),
    }
}

fn member<'a>(v: &'a JsonValue, key: &str) -> Option<&'a JsonValue> {
    match v {
        JsonValue::Object(m) => m.iter().find(|(k, _)| k == key).map(|(_, v)| v),
        _ => None,
    }
}

#[test]
fn valid_request_yields_the_canonical_pair() {
    let r = CreatePromptRunRequest { prompt_name: "vector-db".into(), provider: "openai".into(), triggered_by: None };
    assert_eq!(validate_request(&r), Ok(("vector-db".to_string(), "openai".to_string())));
}

#[test]
fn mock_run_is_stored_ok_and_answered_202() {
    let now = Timestamp { secs: 1_700_000_000, nanos: 5 };
    let req = request(Some("sdk"));
    let row = mock_run_row(&req, "prompt-1".into(), "run-1".into(), now);
    assert_eq!(row.provider, "mock");
    assert_eq!(row.provider_model_version, "mock-1.0");
    assert_eq!(row.status, "ok");
    assert_eq!(row.finished_at, Some(now));
    assert!(matches!(member(&row.raw_response, "kind"), Some(JsonValue::Str(k)) if k == "mock"));
    assert!(matches!(member(&row.raw_response, "prompt_name"), Some(JsonValue::Str(n)) if n == "vector-db"));
    assert!(matches!(member(&row.request_parameters, "triggered_by"), Some(JsonValue::Str(t)) if t == "sdk"));
    let (code, resp) = accepted_response(&row, req, "proj-1".into());
    assert_eq!(code, 202);
    assert_eq!((resp.status.as_str(), resp.run_id.as_str(), resp.project_id.as_str()), ("ok", "run-1", "proj-1"));
    assert_eq!(resp.dispatched_at, now);
    let row = mock_run_row(&request(None), "p".into(), "r".into(), now);
    assert!(matches!(member(&row.request_parameters, "triggered_by"), Some(JsonValue::Null)));
}

#[test]
fn live_row_carries_triggered_by_and_missing_record_is_500() {
    let now = Timestamp { secs: 1_700_000_100, nanos: 0 };
    let start = Timestamp { secs: 1_700_000_000, nanos: 0 };
    let record = OrchestratorRecord {
        id: "run-9".into(),
        provider: "openai".into(),
        provider_model_version: "gpt-4o".into(),
        provider_region: None,
        started_at: start,
        finished_at: Some(now),
        raw_response: JsonValue::Null,
        request_parameters: JsonValue::Object(vec![
            ("temperature".into(), JsonValue::Number("0".into())),
            ("triggered_by".into(), JsonValue::Str("old".into())),
        ]),
        status: "failed".into(),
        error_kind: Some("rate_limited".into()),
    };
    let req = CreatePromptRunRequest { prompt_name: "vector-db".into(), provider: "openai".into(), triggered_by: Some("cli".into()) };
    let row = live_run_row(Some(record), &req, "prompt-1".into(), now).expect("a row");
    assert!(matches!(member(&row.request_parameters, "triggered_by"), Some(JsonValue::Str(t)) if t == "cli"));
    assert!(matches!(member(&row.request_parameters, "temperature"), Some(JsonValue::Number(n)) if n == "0"));
    assert_eq!(row.created_at, now);
    let (code, resp) = accepted_response(&row, req, "proj".into());
    assert_eq!((code, resp.status.as_str(), resp.run_id.as_str()), (202, "failed", "run-9"));
    assert_eq!(resp.dispatched_at, start);
    let req = request(None);
    let e = live_run_row(None, &req, "p".into(), now).err().expect("no record refused");
    assert_eq!((e.status, e.error.as_str()), (500, "internal_error"));
    let merged = merge_triggered_by(JsonValue::Object(vec![]), &None);
    assert!(matches!(member(&merged, "triggered_by"), Some(JsonValue::Null)));
    assert!(matches!(merge_triggered_by(JsonValue::Null, &None), JsonValue::Null));
}
