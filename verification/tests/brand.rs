use anseo_api::brand::{
    brand_name, brand_update_result, check_rename, competitor_names, competitor_prompt, json_array_span,
    parse_competitor_names,
    BrandUpdate,
};
use anseo_api::json::JsonValue;

fn strings(v: &[&str]) -> Vec<String> {
    v.iter().map(|s| s.to_string()).collect()
}

#[test]
fn brand_names_are_trimmed_and_not_blank() {
    assert_eq!(brand_name("  Acme ").ok(), Some("Acme".to_string()));
    let e = brand_name(" \t ").err().expect("blank brand refused");
    assert_eq!((e.status, e.error.as_str(), e.message.as_str()), (400, "empty_name", "brand name must not be empty"));
}

#[test]
fn rename_is_allowed_only_before_the_first_run() {
    assert!(check_rename(false, 9).is_ok());
    assert!(check_rename(true, 0).is_ok());
    let e = check_rename(true, 3).err().expect("rename with runs refused");
    assert_eq!(e.status, 409);
    assert_eq!(e.error, "rename_blocked_has_runs");
    assert!(e.message.contains("this project has 3 prompt run(s)"));
}

#[test]
fn a_rename_reports_the_new_project_id_and_asks_for_a_restart() {
    let body = || BrandUpdate { name: "Acme".into(), variants: strings(&["ACME"]), competitors: vec![], site_url: None };
    let r = brand_update_result("old-id".into(), "new-id".into(), "Acme".into(), body());
    assert_eq!(r.project_id, "new-id");
    assert!(r.restart_required);
    let r = brand_update_result("same".into(), "same".into(), "Acme".into(), body());
    assert_eq!(r.project_id, "same");
    assert!(!r.restart_required);
    assert_eq!(r.variants, strings(&["ACME"]));
}

#[test]
fn competitor_prompt_names_the_brand_and_its_aliases() {
    let p = competitor_prompt("Acme", &strings(&["ACME Corp", "acme.io"]));
    assert!(p.starts_with("List the main competitors of the brand \"Acme\" (also known as: ACME Corp, acme.io). "));
    assert!(p.ends_with("No prose, no markdown, no code fences."));
    let p = competitor_prompt("Acme", &vec![]);
    assert!(p.starts_with("List the main competitors of the brand \"Acme\". Respond with ONLY a JSON array"));
}

#[test]
fn array_span_tolerates_code_fences_and_prose() {
    assert_eq!(json_array_span("```json\n[\"A\", \"B\"]\n```").as_deref(), Some("[\"A\", \"B\"]"));
    assert_eq!(json_array_span("Sure! [1] and [2]. Done").as_deref(), Some("[1] and [2]"));
    assert_eq!(json_array_span("no array here"), None);
    assert_eq!(json_array_span("] backwards ["), None);
}

#[test]
fn competitor_names_read_strings_and_object_names() {
    let values = vec![
        JsonValue::Str(" Globex ".into()),
        JsonValue::Object(vec![("name".into(), JsonValue::Str("Initech".into()))]),
        JsonValue::Str("   ".into()),
        JsonValue::Number("3".into()),
    ];
    assert_eq!(competitor_names(&values), Ok(strings(&["Globex", "Initech"])));
    assert_eq!(
        competitor_names(&vec![JsonValue::Null]),
        Err("model returned an empty competitor list".to_string())
    );
}

#[test]
fn competitor_reply_is_read_from_the_model_text() {
    let reply = "Here you go:\n```json\n[\"Globex\", {\"name\": \" Initech \"}, \"\", 3]\n```";
    assert_eq!(parse_competitor_names(reply), Ok(strings(&["Globex", "Initech"])));
    assert_eq!(parse_competitor_names("no list"), Err("model response did not contain a JSON array".to_string()));
    let e = parse_competitor_names("[Globex, Initech]").unwrap_err();
    assert!(e.starts_with("could not parse JSON array: "), "{}", e);
    assert!(e.len() > "could not parse JSON array: ".len());
    assert_eq!(parse_competitor_names("[]"), Err("model returned an empty competitor list".to_string()));
}
