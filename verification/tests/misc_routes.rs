use anseo_api::alert_rules::{check_rule_name, check_rule_status, deletion_result, fires_for_rule, AlertRuleRecord, AlertRuleResponse, CreateAlertRuleBody, PatchAlertRuleBody};
use anseo_api::analytics::{heatmap_brand, validate_window, volatility_selector, HeatmapQuery, VolatilityQuery};
use anseo_api::audit::{audit_limits, check_target, gates_report, runs_limit, AuditRequest};
use anseo_api::billing::{billing_refusal, stored_subscription, usage_response, webhook_payload, webhook_secret, webhook_signature};
use anseo_api::claims::evaluation_refused;
use anseo_api::disputes::{check_submission, dispute_failure, DisputeFailure, SubmissionRefusal, SubmitRequest};
use anseo_api::entities::{default_role, merge_suggestion, needs_merge_suggestion, registration_fields, registration_status, CreateEntityRequest};
use anseo_api::events::{sse_message, stream_access, StreamItem};
use anseo_api::mcp::{calls_limit, default_limit, mcp_tools};
use anseo_api::projects::{invalid_project_id, project_exists, project_name, CreateProjectRequest};

#[test]
fn alert_rules_validation() {
    let body = |n: &str| CreateAlertRuleBody { name: n.into(), on: "x > 1".into(), target: "*".into(), channels: vec![] };
    assert!(check_rule_name(&body("latency-spike")).is_ok());
    assert_eq!(check_rule_name(&body("  ")).unwrap_err().message, "`name` is required");
    assert!(check_rule_status(&PatchAlertRuleBody { status: "muted".into() }).is_ok());
    assert!(check_rule_status(&PatchAlertRuleBody { status: "paused".into() }).is_err());
    assert_eq!(deletion_result(1, "r".into()).unwrap(), "r");
    assert_eq!(deletion_result(0, "r".into()).unwrap_err().status, 404);
    assert_eq!(fires_for_rule("r"), 0);
    let w = AlertRuleResponse::from_record(
        AlertRuleRecord { name: "r".into(), condition: "c".into(), target: "*".into(), channels: vec!["slack:#ops".into()], status: "armed".into() },
        0,
    );
    assert_eq!((w.on.as_str(), w.channels.len()), ("c", 1));
}

#[test]
fn analytics_selectors() {
    assert_eq!(validate_window(None, 14).unwrap(), 14);
    assert!(validate_window(Some(366), 14).is_err());
    assert_eq!(heatmap_brand(&HeatmapQuery { brand: "  Acme ".into(), days: None }).unwrap(), "Acme");
    assert_eq!(heatmap_brand(&HeatmapQuery { brand: " ".into(), days: None }).unwrap_err().error, "invalid_brand");
    assert_eq!(heatmap_brand(&HeatmapQuery { brand: "é".repeat(129), days: None }).unwrap_err().error, "invalid_brand");
    let q = |p: &str, v: &str| VolatilityQuery { prompt: p.into(), provider: v.into(), brand: "b".into(), window: None };
    assert_eq!(volatility_selector(&q(" p ", "openai")).unwrap(), ("p".to_string(), "openai".to_string(), "b".to_string()));
    assert_eq!(volatility_selector(&q("p", " ")).unwrap_err().error, "invalid_selector");
    assert_eq!(volatility_selector(&q("p", &"x".repeat(65))).unwrap_err().error, "selector_too_long");
}

#[test]
fn audit_limits_are_clamped() {
    let r = AuditRequest { target: "https://x".into(), max_pages: None, timeout_ms: None, fail_on: vec![] };
    assert_eq!(audit_limits(&r), (25, 10_000));
    let r2 = AuditRequest { target: " ".into(), max_pages: Some(1000), timeout_ms: Some(5), fail_on: vec!["high".into()] };
    assert_eq!(audit_limits(&r2), (200, 1_000));
    assert!(check_target(&r).is_ok());
    assert_eq!(check_target(&r2).unwrap_err().error, "invalid_target");
    assert!(!gates_report(&r));
    assert!(gates_report(&r2));
    assert_eq!(runs_limit(None), 50);
}

#[test]
fn billing_usage_and_webhook_checks() {
    let u = usage_response("pro".into(), 5, u32::MAX, 7, 2, 2, 0);
    assert_eq!(u.included_brands, 0);
    assert_eq!(usage_response("pro".into(), 5, 3, 7, 2, 2, 0).included_brands, 3);
    assert_eq!(billing_refusal(403).error, "auth_forbidden");
    assert_eq!(billing_refusal(401).error, "auth_error");
    assert_eq!(webhook_secret(Some("  whsec_1 ")).unwrap(), "whsec_1");
    assert_eq!(webhook_secret(Some("   ")).unwrap_err().status, 503);
    assert_eq!(webhook_secret(None).unwrap_err().error, "stripe_webhook_not_configured");
    assert_eq!(webhook_signature(None).unwrap_err().status, 400);
    assert_eq!(webhook_payload(b"{}").unwrap(), "{}");
    assert_eq!(webhook_payload(&[0xff, 0xfe]).unwrap_err().error, "invalid_payload");
    assert_eq!(stored_subscription(true, "sub_1".into()), None);
    assert_eq!(stored_subscription(false, "sub_1".into()), Some("sub_1".to_string()));
}

#[test]
fn entity_registration() {
    assert_eq!(default_role(), "source");
    let r = CreateEntityRequest { domain: "a.com".into(), display_name: "  Acme ".into(), role: " brand ".into() };
    assert_eq!(registration_fields(&r).unwrap(), ("Acme".to_string(), "brand".to_string()));
    let blank = CreateEntityRequest { domain: "a.com".into(), display_name: "  ".into(), role: "source".into() };
    assert_eq!(registration_fields(&blank).unwrap_err().error, "empty_display_name");
    assert!(needs_merge_suggestion(false, "Acme", "ACME Inc"));
    assert!(!needs_merge_suggestion(true, "Acme", "ACME Inc"));
    assert!(merge_suggestion("Acme".into(), "Acme Inc".into(), 70, 60, 90).queued_for_review);
    assert!(!merge_suggestion("Acme".into(), "Acme Inc".into(), 95, 60, 90).queued_for_review);
    assert_eq!(registration_status(true), 201);
}

#[test]
fn dispute_submission() {
    let allowed = vec!["correction".to_string(), "claim_conflict".to_string()];
    let body = SubmitRequest {
        domain: "a.com".into(),
        dispute_type: " correction ".into(),
        description: " wrong name ".into(),
        submitter_email: Some(" x@y.z ".into()),
        proposed_value: None,
    };
    let s = check_submission("a.com".into(), &body, &allowed).unwrap();
    assert_eq!(s.dispute_type, "correction");
    assert_eq!(s.description, "wrong name");
    assert_eq!(s.submitter_email.as_deref(), Some("x@y.z"));
    assert_eq!(check_submission("".into(), &body, &allowed).unwrap_err(), SubmissionRefusal::EmptyDomain);
    let bad = SubmitRequest { dispute_type: "spam".into(), ..body };
    assert_eq!(check_submission("a.com".into(), &bad, &allowed).unwrap_err(), SubmissionRefusal::InvalidDisputeType);
    assert!(matches!(dispute_failure(true, 5, "x".into()), DisputeFailure::NotFound { id: 5 }));
}

#[test]
fn event_stream_messages() {
    assert!(stream_access(1, 1).is_ok());
    assert_eq!(stream_access(1, 2), Err(403));
    let m = sse_message(StreamItem::Lagged { dropped: 12 }, 1).unwrap();
    assert_eq!(m, ("lagged".to_string(), "{\"dropped\":12}".to_string()));
    let ev = StreamItem::Event { project_id: 1, kind: "run.completed".into(), payload: Some("{}".into()) };
    assert_eq!(sse_message(ev, 1), Some(("run.completed".to_string(), "{}".to_string())));
    let other = StreamItem::Event { project_id: 2, kind: "run.completed".into(), payload: Some("{}".into()) };
    assert_eq!(sse_message(other, 1), None);
}

#[test]
fn mcp_registry_and_limits() {
    let tools = mcp_tools().tools;
    assert_eq!(tools.len(), 7);
    assert_eq!(tools[0].id, "run_prompt");
    assert_eq!(tools[6].id, "audit");
    assert_eq!(default_limit(), 20);
    assert_eq!(calls_limit(0), 1);
    assert_eq!(calls_limit(1000), 200);
}

#[test]
fn project_creation_checks() {
    let r = CreateProjectRequest { name: "  Acme  ".into(), variants: vec![], site_url: None };
    assert_eq!(project_name(&r).unwrap(), "Acme");
    let blank = CreateProjectRequest { name: " ".into(), variants: vec![], site_url: None };
    assert_eq!(project_name(&blank).unwrap_err().status, 400);
    assert_eq!(project_exists("Acme").message, "a project named `Acme` already exists");
    assert_eq!(invalid_project_id("not-a-valid-id").status, 404);
}

#[test]
fn claims_evaluation_needs_entitlement() {
    let r = evaluation_refused();
    assert_eq!((r.status, r.error, r.feature), (402, "entitlement_required", "hallucination_evaluation"));
}
