use anseo_api::prompts::{
    check_prompt_delete, check_prompt_rename, kpi_trend_hours, normalize_tags, parse_suggested_prompts, prompt_name,
    resolve_tags,
    run_summary_since, slug_from_text, KpiTrendQuery, RunSummaryQuery,
};
use anseo_api::wire::Timestamp;

fn strings(v: &[&str]) -> Vec<String> {
    v.iter().map(|s| s.to_string()).collect()
}

#[test]
fn since_query_parses_rfc3339() {
    let now = Timestamp { secs: 1_800_000_000, nanos: 0 };
    let q = RunSummaryQuery { since: Some("2026-05-29T12:00:00Z".to_string()) };
    match run_summary_since(&q, now) {
        Ok(t) => assert_eq!(t, Timestamp { secs: 1_780_056_000, nanos: 0 }),
        Err(e) => panic!("unexpected error {}", e.message),
    }
}

#[test]
fn since_defaults_to_thirty_days_before_now() {
    let now = Timestamp { secs: 1_800_000_000, nanos: 7 };
    let q = RunSummaryQuery { since: None };
    match run_summary_since(&q, now) {
        Ok(t) => assert_eq!(t, Timestamp { secs: 1_800_000_000 - 30 * 86_400, nanos: 7 }),
        Err(e) => panic!("unexpected error {}", e.message),
    }
}

#[test]
fn since_that_is_not_rfc3339_is_refused() {
    let now = Timestamp { secs: 1_800_000_000, nanos: 0 };
    let q = RunSummaryQuery { since: Some("yesterday".to_string()) };
    match run_summary_since(&q, now) {
        Ok(_) => panic!("accepted a non-RFC3339 bound"),
        Err(e) => {
            assert_eq!(e.status, 400);
            assert_eq!(e.error, "invalid_since");
            assert!(e.message.starts_with("`since` must be RFC3339: "));
            assert!(e.message.len() > "`since` must be RFC3339: ".len());
        }
    }
}

#[test]
fn kpi_trend_defaults_to_a_week() {
    assert_eq!(kpi_trend_hours(&KpiTrendQuery { hours: None }), 168);
    assert_eq!(kpi_trend_hours(&KpiTrendQuery { hours: Some(24) }), 24);
}

#[test]
fn prompt_names_are_trimmed_and_not_blank() {
    assert_eq!(prompt_name("  vector db  ").ok(), Some("vector db".to_string()));
    let e = prompt_name("   ").err().expect("blank name refused");
    assert_eq!((e.status, e.error.as_str()), (400, "empty_name"));
}

#[test]
fn tags_are_trimmed_deduplicated_case_insensitively_first_spelling_kept() {
    let out = normalize_tags(&strings(&[" Search ", "", "search", "DB", "  ", "db", "Vector"]));
    assert_eq!(out, strings(&["Search", "DB", "Vector"]));
}

#[test]
fn category_resolves_to_an_existing_tag_or_auto() {
    let existing = strings(&["Search", "Databases"]);
    assert_eq!(resolve_tags(Some("databases"), &existing), strings(&["Databases"]));
    assert_eq!(resolve_tags(Some("pricing"), &existing), strings(&["AUTO"]));
    assert_eq!(resolve_tags(None, &existing), strings(&["AUTO"]));
}

#[test]
fn slugs_take_the_first_five_words() {
    assert_eq!(slug_from_text("What is the BEST vector database, for RAG?"), "what-is-the-best-vector");
    assert_eq!(slug_from_text("  ?!  "), "prompt");
    assert_eq!(slug_from_text("Hello"), "hello");
}

#[test]
fn renames_and_deletes_only_before_the_first_run() {
    assert!(check_prompt_rename(false, 3, true, "x").is_ok());
    let e = check_prompt_rename(true, 2, false, "x").err().expect("rename with runs refused");
    assert_eq!((e.status, e.error.as_str()), (409, "rename_blocked_has_runs"));
    assert!(e.message.contains("it has 2 run(s)"));
    let e = check_prompt_rename(true, 0, true, "dup").err().expect("taken id refused");
    assert_eq!(e.error, "prompt_exists");
    assert_eq!(e.message, "a prompt named `dup` already exists");
    assert!(check_prompt_rename(true, 0, false, "x").is_ok());
    assert!(check_prompt_delete(0).is_ok());
    let e = check_prompt_delete(4).err().expect("delete with runs refused");
    assert_eq!(e.status, 409);
    assert_eq!(e.message, "this prompt has 4 run(s) and cannot be deleted; its run history references it.");
}

#[test]
fn suggested_prompts_are_read_from_the_model_text() {
    let reply = r#"Sure! [{"text": " Which vector DB is fastest? ", "category": "Databases"},
        {"name": "pricing", "text": "How much does Acme cost?"}, {"name": "x"}, "skip"] thanks"#;
    let ps = parse_suggested_prompts(reply).expect("two prompts");
    assert_eq!(ps.len(), 2);
    assert_eq!(ps[0].text, "Which vector DB is fastest?");
    assert_eq!(ps[0].name, "which-vector-db-is-fastest");
    assert_eq!(ps[0].category.as_deref(), Some("Databases"));
    assert_eq!(ps[1].name, "pricing");
    assert_eq!(ps[1].category, None);
    assert_eq!(
        parse_suggested_prompts("no array").err().as_deref(),
        Some("model response did not contain a JSON array")
    );
    let e = parse_suggested_prompts("[{text: 1}]").err().expect("unparsable");
    assert!(e.starts_with("could not parse JSON array: "), "{}", e);
    assert_eq!(
        parse_suggested_prompts(r#"[{"name": "x"}]"#).err().as_deref(),
        Some("model returned an empty prompt list")
    );
}

#[test]
fn normalizing_tags_twice_changes_nothing() {
    let once = normalize_tags(&strings(&[" Search ", "SEARCH", " db", "Db ", "", "x"]));
    assert_eq!(once, strings(&["Search", "db", "x"]));
    assert_eq!(normalize_tags(&once), once);
}

#[test]
fn slugs_have_no_stray_hyphens() {
    assert_eq!(slug_from_text("--a--b--"), "a-b");
    assert_eq!(slug_from_text("one two three four five six seven"), "one-two-three-four-five");
    for t in ["", "!!!", " a ", "a--b", "Ünïcödé text", "1 2 3 4 5 6"] {
        let s = slug_from_text(t);
        assert!(!s.is_empty() && !s.starts_with('-') && !s.ends_with('-') && !s.contains("--"), "{:?}", s);
        assert!(s.split('-').count() <= 5);
    }
}

#[test]
fn slugs_hold_no_capitals_and_fall_back_to_prompt() {
    assert_eq!(slug_from_text("ABC Déf"), "abc-déf");
    assert_eq!(slug_from_text("?? -- !!"), "prompt");
    assert!(!slug_from_text("HELLO World").chars().any(|c| c.is_ascii_uppercase()));
}
