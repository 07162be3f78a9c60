use anseo_api::ingest::{
    consent_is_active, contribution_gate, ingest_accepted, ingest_run_row, message_text_for_extraction, persisted_raw_response, resolve_citation_domains, seal_status,
    validate_request, ContributionStatus, IngestRunRequest, ProjectRateLimiter, SealFailure, ValidationError,
    INGEST_RATE_LIMIT_MAX, INGEST_RATE_LIMIT_WINDOW_NANOS,
};
use anseo_api::json::JsonValue;
use anseo_api::wire::Timestamp;

const PROJECT: &str = "01JTESTPROJECT0000000000000";
const TERMS_VERSION: &str = "v1";

fn req(text: Option<&str>, domains: Option<Vec<&str>>) -> IngestRunRequest {
    IngestRunRequest {
        prompt_slug: "vector-db".into(),
        provider: "openai".into(),
        model: "gpt-4o-2024-08-06".into(),
        raw_response: text.map(|t| JsonValue::Str(t.to_string())),
        metadata: None,
        response_text: text.map(str::to_string),
        citation_domains: domains.map(|d| d.into_iter().map(str::to_string).collect()),
        observed_rank: Some(2),
        observed_at: Some((1_781_505_801, 0)),
        contribute: false,
    }
}

#[test]
fn limiter_blocks_after_capacity_then_recovers_after_window() {
    let mut limiter = ProjectRateLimiter::new();
    let base: u64 = 1_000_000_000_000;
    for _ in 0..INGEST_RATE_LIMIT_MAX {
        assert!(limiter.check(PROJECT, base));
    }
    assert!(!limiter.check(PROJECT, base));
    assert!(limiter.check(PROJECT, base + INGEST_RATE_LIMIT_WINDOW_NANOS + 1_000_000));
}

#[test]
fn limiter_keeps_projects_apart() {
    let mut limiter = ProjectRateLimiter::new();
    for _ in 0..INGEST_RATE_LIMIT_MAX {
        assert!(limiter.check("a", 0));
    }
    assert!(!limiter.check("a", 0));
    assert!(limiter.check("b", 0));
}

#[test]
fn validate_rejects_non_slug_prompt() {
    let mut r = req(None, None);
    r.prompt_slug = "Vector DB".into();
    assert!(matches!(validate_request(&r, true), Err(ValidationError::BadRequest(m)) if m.contains("slug-safe")));
}

#[test]
fn validate_rejects_empty_or_unknown_provider() {
    let mut r = req(Some("hello"), None);
    r.provider = "".into();
    assert!(matches!(validate_request(&r, false), Err(ValidationError::ProviderNotSupported(_))));
    let mut r = req(Some("hello"), None);
    r.provider = "totally-made-up".into();
    assert!(matches!(validate_request(&r, false), Err(ValidationError::ProviderNotSupported(m)) if m.contains("totally-made-up")));
}

#[test]
fn validate_rejects_empty_model_as_bad_request() {
    let mut r = req(None, None);
    r.model = "  ".into();
    assert!(matches!(validate_request(&r, true), Err(ValidationError::BadRequest(_))));
}

#[test]
fn validate_requires_raw_response_or_compat_response_text() {
    let mut r = req(None, None);
    r.raw_response = None;
    r.response_text = None;
    assert!(matches!(validate_request(&r, true), Err(ValidationError::BadRequest(m)) if m.contains("raw_response")));
}

#[test]
fn validate_rejects_non_object_metadata() {
    let mut r = req(Some("hello"), None);
    r.metadata = Some(JsonValue::Str("trace-123".into()));
    assert!(matches!(validate_request(&r, true), Err(ValidationError::BadRequest(m)) if m.contains("`metadata`")));
}

#[test]
fn validate_accepts_first_party_and_plugin_providers() {
    let mut r = req(Some("hello"), None);
    r.provider = "anthropic".into();
    assert!(validate_request(&r, true).is_ok());
    r.provider = "plugin:test.mock-provider".into();
    assert!(validate_request(&r, true).is_ok());
}

#[test]
fn consent_active_only_for_optin_on_current_terms() {
    assert!(consent_is_active("optin", TERMS_VERSION, TERMS_VERSION));
    assert!(!consent_is_active("optout", TERMS_VERSION, TERMS_VERSION));
    assert!(!consent_is_active("optin", "v0-stale", TERMS_VERSION));
}

#[test]
fn citation_domains_explicit_take_precedence() {
    let r = req(Some("see https://docs.foo.com/x"), Some(vec!["Bar.COM", "bar.com"]));
    let extracted = vec!["docs.foo.com".to_string()];
    assert_eq!(resolve_citation_domains(&r, &extracted), vec!["bar.com".to_string()]);
}

#[test]
fn citation_domains_extracted_from_text_when_absent() {
    let r = req(Some("see https://docs.foo.com/x"), None);
    let extracted = vec!["Docs.Foo.com".to_string(), "docs.foo.com".to_string()];
    assert_eq!(resolve_citation_domains(&r, &extracted), vec!["docs.foo.com".to_string()]);
}

#[test]
fn message_text_prefers_compat_response_text() {
    let r = req(Some("compat text"), None);
    assert_eq!(message_text_for_extraction(&r), Some("compat text".to_string()));
}

#[test]
fn message_text_uses_canonical_raw_response_when_needed() {
    let mut r = req(None, None);
    r.raw_response = Some(JsonValue::Object(vec![("text".to_string(), JsonValue::Str("hello".to_string()))]));
    assert_eq!(message_text_for_extraction(&r), Some("hello".to_string()));

    r.raw_response = Some(JsonValue::Str("plain string".to_string()));
    assert_eq!(message_text_for_extraction(&r), Some("plain string".to_string()));
}

#[test]
fn message_text_uses_nested_provider_payloads() {
    let mut r = req(None, None);
    r.raw_response = Some(JsonValue::Object(vec![(
        "choices".to_string(),
        JsonValue::Array(vec![JsonValue::Object(vec![(
            "message".to_string(),
            JsonValue::Object(vec![(
                "content".to_string(),
                JsonValue::Array(vec![
                    JsonValue::Object(vec![("text".to_string(), JsonValue::Str("first".to_string()))]),
                    JsonValue::Object(vec![("text".to_string(), JsonValue::Str("second".to_string()))]),
                ]),
            )]),
        )])]),
    )]));
    assert_eq!(message_text_for_extraction(&r), Some("first\nsecond".to_string()));
}

#[test]
fn message_text_trims_a_nested_answer() {
    let mut r = req(None, None);
    r.raw_response = Some(JsonValue::Object(vec![(
        "choices".to_string(),
        JsonValue::Array(vec![JsonValue::Object(vec![(
            "message".to_string(),
            JsonValue::Object(vec![("content".to_string(), JsonValue::Str(" nested answer ".to_string()))]),
        )])]),
    )]));
    assert_eq!(message_text_for_extraction(&r), Some("nested answer".to_string()));
}

#[test]
fn not_opted_in_skips_cleanly() {
    assert_eq!(contribution_gate(false, true, true), Some(ContributionStatus::SkippedNotOptedIn));
    assert_eq!(contribution_gate(true, false, true), Some(ContributionStatus::SkippedNotOptedIn));
}

#[test]
fn opted_in_without_kek_is_flagged_not_dropped() {
    assert_eq!(contribution_gate(true, true, false), Some(ContributionStatus::KekMissing));
    assert_eq!(contribution_gate(true, true, true), None);
}

#[test]
fn contribute_false_never_seals_even_when_opted_in_with_kek() {
    let req_contribute = false;
    let opted_in = true;
    assert_eq!(contribution_gate(req_contribute, opted_in, true), Some(ContributionStatus::SkippedNotOptedIn));
}

#[test]
fn seal_failures_are_reported_with_their_reason() {
    assert_eq!(seal_status(Ok(())), ContributionStatus::Sealed);
    assert_eq!(
        seal_status(Err(SealFailure::Seal("boom".into()))),
        ContributionStatus::RedactionRejected { reason: "seal failed: boom".into() }
    );
    assert_eq!(
        seal_status(Err(SealFailure::Redaction("stale terms".into()))),
        ContributionStatus::RedactionRejected { reason: "stale terms".into() }
    );
}

fn member<'a>(v: &'a JsonValue, key: &str) -> Option<&'a JsonValue> {
    match v {
        JsonValue::Object(m) => m.iter().find(|(k, _)| k == key).map(|(_, v)| v),
        _ => None,
    }
}

fn as_str(v: Option<&JsonValue>) -> Option<&str> {
    match v {
        Some(JsonValue::Str(s)) => Some(s.as_str()),
        _ => None,
    }
}

#[test]
fn persisted_raw_response_preserves_supplied_json() {
    let mut r = req(None, None);
    r.raw_response = Some(JsonValue::Object(vec![
        ("id".to_string(), JsonValue::Str("abc".to_string())),
        ("text".to_string(), JsonValue::Str("hello".to_string())),
    ]));
    let persisted = persisted_raw_response(r.raw_response.take(), &r.response_text, &vec![], r.observed_rank);
    assert_eq!(as_str(member(&persisted, "id")), Some("abc"));
    assert_eq!(as_str(member(&persisted, "text")), Some("hello"));
}

#[test]
fn persisted_raw_response_records_compat_fields() {
    let r = req(Some("answer"), None);
    let domains = vec!["a.com".to_string(), "b.org".to_string()];
    let persisted = persisted_raw_response(None, &r.response_text, &domains, Some(-3));
    assert_eq!(as_str(member(&persisted, "kind")), Some("external_ingest_compat"));
    assert_eq!(as_str(member(&persisted, "response_text")), Some("answer"));
    match member(&persisted, "observed_rank") {
        Some(JsonValue::Number(n)) => assert_eq!(n, "-3"),
        other => panic!("unexpected rank {:?}", other),
    }
    match member(&persisted, "citation_domains") {
        Some(JsonValue::Array(a)) => {
            let got: Vec<Option<&str>> = a.iter().map(|v| as_str(Some(v))).collect();
            assert_eq!(got, vec![Some("a.com"), Some("b.org")]);
        }
        other => panic!("unexpected domains {:?}", other),
    }
    let bare = persisted_raw_response(None, &None, &vec![], None);
    assert!(matches!(member(&bare, "observed_rank"), Some(JsonValue::Null)));
    assert!(matches!(member(&bare, "response_text"), Some(JsonValue::Null)));
}

#[test]
fn refused_requests_use_no_capacity() {
    let mut limiter = ProjectRateLimiter::new();
    let base: u64 = 5_000_000_000_000;
    for _ in 0..INGEST_RATE_LIMIT_MAX {
        assert!(limiter.check(PROJECT, base));
    }
    for i in 1..=10u64 {
        assert!(!limiter.check(PROJECT, base + i * 1_000_000_000));
    }
    let later = base + INGEST_RATE_LIMIT_WINDOW_NANOS;
    for _ in 0..INGEST_RATE_LIMIT_MAX {
        assert!(limiter.check(PROJECT, later));
    }
    assert!(!limiter.check(PROJECT, later));
}

#[test]
fn ingested_run_row_and_answer() {
    let now = Timestamp { secs: 1_800_000_000, nanos: 0 };
    let r = req(Some("answer"), None);
    let row = ingest_run_row(r, JsonValue::Null, "prompt-1".into(), "run-1".into(), now);
    assert_eq!(row.provider, "openai");
    assert_eq!(row.provider_model_version, "gpt-4o-2024-08-06");
    assert_eq!(row.started_at, Timestamp { secs: 1_781_505_801, nanos: 0 });
    assert_eq!(row.finished_at, Some(row.started_at));
    assert_eq!(row.status, "ok");
    assert_eq!(row.created_at, now);
    assert!(matches!(member(&row.request_parameters, "source"), Some(JsonValue::Str(s)) if s == "ingest_api"));
    assert!(matches!(member(&row.request_parameters, "observed_rank"), Some(JsonValue::Number(n)) if n == "2"));
    assert!(matches!(member(&row.request_parameters, "metadata"), Some(JsonValue::Object(m)) if m.is_empty()));
    let (code, resp) = ingest_accepted(&row, "proj".into(), "vector-db".into(), ContributionStatus::SkippedNotOptedIn);
    assert_eq!(code, 202);
    assert_eq!((resp.run_id.as_str(), resp.project_id.as_str(), resp.provider.as_str()), ("run-1", "proj", "openai"));
    assert_eq!(resp.observed_at, row.started_at);
    assert_eq!(resp.contribution, ContributionStatus::SkippedNotOptedIn);

    let mut r = req(None, None);
    r.observed_at = None;
    r.observed_rank = None;
    let row = ingest_run_row(r, JsonValue::Null, "p".into(), "r".into(), now);
    assert_eq!(row.started_at, now);
    assert!(matches!(member(&row.request_parameters, "observed_rank"), Some(JsonValue::Null)));
}
