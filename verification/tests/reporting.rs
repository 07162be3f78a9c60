use anseo_api::runs::{run_list_params, RunListParams};
use anseo_api::anomalies::{
    newest_first, passes_filters, project_anomaly, query_event_kinds, query_window_days, AnomaliesQuery,
    AnomalyItemKind, KindParam, WindowParam,
};
use anseo_api::citations::{
    capped_sample_ids, enrich_sample_ids, has_filter, legacy_domain_entry, needs_sample_lookup, summary_days,
    summary_limit, DomainEntry, SummaryQuery,
};
use anseo_api::crawlers::{
    grafana_datapoints, grafana_target, ingest_result, is_blank_line, parse_format, parse_privacy_mode,
    validate_days, AccessLogFormat, GrafanaQuery, LineOutcome, PrivacyMode,
};
use anseo_api::density_check::{density_response, g_name_enabled, threshold_details, DensityThresholds};
use anseo_api::json::JsonValue;
use anseo_api::wire::Timestamp;

fn query(limit: Option<i64>, days: Option<i32>) -> SummaryQuery {
    SummaryQuery { limit, days, provider: None, prompt: None }
}

#[test]
fn citation_summary_window_and_limit() {
    assert_eq!(summary_limit(&query(None, None)), 50);
    assert_eq!(summary_limit(&query(Some(0), None)), 1);
    assert_eq!(summary_limit(&query(Some(9999), None)), 500);
    assert_eq!(summary_days(&query(None, None)), 30);
    assert_eq!(summary_days(&query(None, Some(1000))), 365);
    assert!(!has_filter(&query(Some(10), None)));
    assert!(has_filter(&query(None, Some(7))));
}

#[test]
fn sample_ids_are_capped_at_five() {
    let raw: Vec<String> = (0..8).map(|i| format!("run{i}")).collect();
    assert_eq!(capped_sample_ids(Some(raw)).len(), 5);
    assert!(capped_sample_ids(None).is_empty());
}

#[test]
fn missing_samples_are_filled_once_per_domain() {
    let entries = vec![
        legacy_domain_entry("a.com".into(), 3, None),
        DomainEntry { domain: "b.com".into(), frequency: 2, source_type: None, sample_prompt_run_ids: vec!["x".into()] },
        legacy_domain_entry("a.com".into(), 1, Some("blog".into())),
    ];
    assert!(needs_sample_lookup(&entries));
    let rows: Vec<(String, String)> = vec![
        ("a.com".into(), "r1".into()),
        ("b.com".into(), "r9".into()),
        ("a.com".into(), "r1".into()),
        ("a.com".into(), "r2".into()),
    ];
    let out = enrich_sample_ids(entries, &rows);
    assert_eq!(out[0].sample_prompt_run_ids, vec!["r1".to_string(), "r2".to_string()]);
    assert_eq!(out[1].sample_prompt_run_ids, vec!["x".to_string()]);
    // Only the first entry of a domain takes its samples.
    assert!(out[2].sample_prompt_run_ids.is_empty());
    assert_eq!(out[2].source_type.as_deref(), Some("blog"));
}

fn anomaly_query(prompt: Option<&str>, provider: Option<&str>) -> AnomaliesQuery {
    AnomaliesQuery {
        prompt: prompt.map(str::to_string),
        provider: provider.map(str::to_string),
        window: None,
        kind: None,
        since: None,
    }
}

#[test]
fn anomaly_query_taxonomy() {
    assert_eq!(WindowParam::OneDay.days(), 1);
    assert_eq!(query_window_days(&anomaly_query(None, None)), 7);
    let mut q = anomaly_query(None, None);
    q.window = Some(WindowParam::ThirtyDay);
    q.kind = Some(KindParam::Citation);
    assert_eq!(query_window_days(&q), 30);
    assert_eq!(query_event_kinds(&q), vec!["citation.anomaly".to_string()]);
    assert_eq!(
        query_event_kinds(&anomaly_query(None, None)),
        vec!["visibility.anomaly".to_string(), "citation.anomaly".to_string()]
    );
}

#[test]
fn anomaly_projection_reads_the_payload() {
    let created = Timestamp { secs: 100, nanos: 0 };
    let payload = JsonValue::Object(vec![
        ("provider".into(), JsonValue::Str("openai".into())),
        ("observed_at".into(), JsonValue::Str("2026-06-15T08:43:21Z".into())),
        ("detail".into(), JsonValue::Object(vec![("prompt".into(), JsonValue::Str("vector-db".into()))])),
    ]);
    let id: u128 = 0x0190_0000_0000_0000_0000_0000_0000_0001;
    let p = project_anomaly(id, "visibility.anomaly", created, payload, 7).expect("projected");
    assert_eq!(p.kind, AnomalyItemKind::VisibilityDrop);
    assert_eq!(p.provider, "openai");
    assert_eq!(p.prompt.as_deref(), Some("vector-db"));
    assert_eq!(p.detected_at, Timestamp { secs: 1_781_513_001, nanos: 0 });
    assert_eq!(p.id, ulid::Ulid::from(id).to_string());
    assert!(project_anomaly(id, "other.event", created, JsonValue::Null, 7).is_none());
    let bare = project_anomaly(id, "citation.anomaly", created, JsonValue::Object(vec![]), 1).unwrap();
    assert_eq!(bare.provider, "unknown");
    assert_eq!(bare.detected_at, created);
    assert!(matches!(bare.details, JsonValue::Object(ref m) if m.is_empty()));
    assert!(passes_filters(&p, &anomaly_query(Some("vector-db"), Some("openai"))));
    assert!(!passes_filters(&p, &anomaly_query(Some("other"), None)));
    assert!(!passes_filters(&bare, &anomaly_query(Some("vector-db"), None)));
}

#[test]
fn anomalies_are_listed_newest_first_stably() {
    let t = |s: i64| Timestamp { secs: s, nanos: 0 };
    let order = newest_first(&vec![t(5), t(9), t(5), t(1), t(9)]);
    assert_eq!(order, vec![1, 4, 0, 2, 3]);
}

#[test]
fn crawler_queries_and_ingest_tally() {
    assert_eq!(validate_days(None).unwrap(), 30);
    assert_eq!(validate_days(Some(0)).unwrap_err().error, "invalid_window");
    assert_eq!(parse_format(Some("COMMON")), AccessLogFormat::Common);
    assert_eq!(parse_format(Some("weird")), AccessLogFormat::Combined);
    assert_eq!(parse_privacy_mode(Some("Raw")), PrivacyMode::Raw);
    assert_eq!(parse_privacy_mode(Some("truncated")), PrivacyMode::Truncated);
    assert_eq!(parse_privacy_mode(None), PrivacyMode::Hashed);
    assert!(is_blank_line("   "));
    assert!(!is_blank_line(" x "));
    let r = ingest_result(&vec![LineOutcome::Event, LineOutcome::Blank, LineOutcome::NotCrawler, LineOutcome::Event], 1);
    assert_eq!((r.parsed, r.skipped, r.ingested), (2, 2, 1));
    let q = GrafanaQuery { days: None, target: None, include_unverified: None };
    assert_eq!(grafana_target(&q), "verified crawler hits");
    let points = grafana_datapoints(&vec![("2026-01-02".to_string(), 7), ("bad".to_string(), 3)]);
    assert_eq!(points, vec![(7, 1_767_312_000_000)]);
}

#[test]
fn density_gate_requires_every_threshold() {
    let t = DensityThresholds::default();
    assert_eq!((t.min_contributors, t.min_categories, t.min_domains_per_category, t.min_runs_per_segment), (20, 20, 10, 100));
    let t2 = DensityThresholds::from_settings(Some("50"), Some("x"), None, Some("-3"));
    assert_eq!((t2.min_contributors, t2.min_categories, t2.min_domains_per_category, t2.min_runs_per_segment), (50, 20, 10, -3));
    let d = threshold_details(&t, 25, 20, 9, 150);
    assert_eq!(d.iter().map(|x| x.passed).collect::<Vec<_>>(), vec![true, true, false, true]);
    assert_eq!(d[2].threshold_name, "ranked_domains_per_category");
    let r = density_response(true, d, "2026-06-05T00:00:00Z".into());
    assert!(!r.density_thresholds_met);
    assert!(!r.named_mode_active);
    let all = threshold_details(&t, 25, 20, 10, 150);
    let r = density_response(true, all, "t".into());
    assert!(r.named_mode_active);
    assert!(!g_name_enabled(None));
    assert!(g_name_enabled(Some("yes")));
    assert_eq!(r.methodology_version, "anseo-v1.0");
}

#[test]
fn thresholds_default_values() {
    let t = DensityThresholds::from_settings(None, None, None, None);
    assert_eq!(t.min_contributors, 20);
    assert_eq!(t.min_categories, 20);
    assert_eq!(t.min_domains_per_category, 10);
    assert_eq!(t.min_runs_per_segment, 100);
}

#[test]
fn thresholds_env_override() {
    let t = DensityThresholds::from_settings(Some("50"), None, None, None);
    assert_eq!(t.min_contributors, 50);
}

#[test]
fn g_name_flag_off_by_default() {
    assert!(!g_name_enabled(None));
}

#[test]
fn g_name_flag_on() {
    assert!(g_name_enabled(Some("true")));
}

#[test]
fn run_list_defaults_to_first_page_of_25() {
    assert_eq!(run_list_params(None, None), RunListParams { limit: 25, offset: 0 });
    assert_eq!(run_list_params(Some(5), Some(10)), RunListParams { limit: 5, offset: 10 });
}
