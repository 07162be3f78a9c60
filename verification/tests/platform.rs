use anseo_api::boot::{bootstrap_plaintext, check_bind_acceptable, configured_project_name, first_setting, seeds_prompts, test_mode_enabled};
use anseo_api::brands::{declared_brands, match_set};
use anseo_api::comms::{preference_update, preferences_page, unsubscribe_confirm_page, unsubscribe_update, PreferencesForm};
use anseo_api::notifications::{notification_list, NotificationRow};
use anseo_api::project_scope::{named_project, project_header_value, resolution, ResolveError};
use anseo_api::providers::{catalog, provider_source, ProviderSource, RegistryRefresh, UpstreamModel};
use anseo_api::wire::Timestamp;

#[test]
fn bind_address_and_config_precedence() {
    let s = vec![None, Some("0.0.0.0:9000".to_string()), Some("ignored".to_string())];
    assert_eq!(first_setting(&s, "127.0.0.1:8080"), "0.0.0.0:9000");
    assert_eq!(first_setting(&vec![None, None], "anseo.yaml"), "anseo.yaml");
}

#[test]
fn bind_refusals() {
    assert!(check_bind_acceptable("127.0.0.1:8080", Ok(true), true, 0).is_ok());
    let e = check_bind_acceptable("0.0.0.0:8080", Ok(false), true, 3).unwrap_err();
    assert!(e.contains("OPENGEO_TEST_MODE=1"));
    let e = check_bind_acceptable("0.0.0.0:8080", Ok(false), false, 0).unwrap_err();
    assert!(e.contains("no active API keys"));
    assert!(check_bind_acceptable("0.0.0.0:8080", Ok(false), false, 1).is_ok());
    let e = check_bind_acceptable("nonsense", Err("invalid socket address syntax".into()), false, 1).unwrap_err();
    assert_eq!(e, "invalid OPENGEO_API_BIND `nonsense`: invalid socket address syntax");
    assert!(test_mode_enabled(Some("1")));
    assert!(!test_mode_enabled(Some("true")));
    assert_eq!(bootstrap_plaintext(0, Some("  key ")), Some("key".to_string()));
    assert_eq!(bootstrap_plaintext(1, Some("key")), None);
    assert_eq!(bootstrap_plaintext(0, Some("  ")), None);
    assert!(seeds_prompts(2, true, 0));
    assert!(!seeds_prompts(2, true, 1));
    assert_eq!(configured_project_name(None), "default");
}

#[test]
fn brand_spellings_are_sorted_and_unique() {
    let m = match_set("OpenGEO", &vec!["opengeo".to_string(), "Open GEO".to_string()]);
    assert_eq!(m, vec!["open geo".to_string(), "opengeo".to_string()]);
    let d = declared_brands("Acme".into(), vec![], vec![("Beta".into(), vec!["B".into()])]);
    assert_eq!(d.len(), 2);
    assert!(d[0].1);
    assert_eq!(d[1].0, "Beta");
    assert!(!d[1].1);
}

#[test]
fn preference_center_page_and_updates() {
    let page = preferences_page("tok123", true, "weekly", false);
    assert!(page.contains("action=\"/preferences/tok123\""));
    assert!(page.contains("value=\"true\" checked>"));
    assert!(page.contains("<option value=\"weekly\" selected>Weekly</option>"));
    assert!(page.contains("<option value=\"daily\" >Daily</option>"));
    assert!(page.contains("href=\"/u/tok123\""));
    let u = preference_update(PreferencesForm {
        rank_change_enabled: Some("true".into()),
        digest_frequency: Some("hourly".into()),
        all_marketing_off: None,
    });
    assert_eq!(u.rank_change_enabled, Some(true));
    assert_eq!(u.all_marketing_off, Some(false));
    assert_eq!(u.digest_frequency, None);
    let u = preference_update(PreferencesForm { rank_change_enabled: None, digest_frequency: Some("daily".into()), all_marketing_off: None });
    assert_eq!(u.digest_frequency.as_deref(), Some("daily"));
    assert_eq!(unsubscribe_update().all_marketing_off, Some(true));
    assert_eq!(unsubscribe_confirm_page("t", false), "<h1>You are unsubscribed.</h1>");
    assert!(unsubscribe_confirm_page("t", true).contains("action=\"/u/t\""));
}

#[test]
fn notification_unread_count() {
    let t = Timestamp { secs: 1, nanos: 0 };
    let row = |id: u128, read: bool| NotificationRow {
        id,
        kind: "k".into(),
        subject: "s".into(),
        body_text: "b".into(),
        read_at: if read { Some(t) } else { None },
        created_at: t,
    };
    let l = notification_list(vec![row(1, false), row(2, true), row(3, false)]);
    assert_eq!(l.unread_count, 2);
    assert_eq!(l.notifications.iter().map(|n| (n.id, n.read)).collect::<Vec<_>>(), vec![(1, false), (2, true), (3, false)]);
}

#[test]
fn project_resolution_precedence() {
    assert_eq!(named_project(Some(" Acme "), Some("Other")), Some("Acme".to_string()));
    assert_eq!(named_project(Some("  "), Some(" Other ")), Some("Other".to_string()));
    assert_eq!(named_project(None, Some("DEFAULT")), None);
    assert_eq!(named_project(None, None), None);
    assert_eq!(project_header_value(None, Some("legacy".into())), Some("legacy".to_string()));
    assert_eq!(resolution::<u8>(None), Err(ResolveError::NotFound));
}

#[test]
fn openrouter_catalog_is_filtered_and_sorted() {
    let up = vec![
        UpstreamModel { id: "openai/gpt-4o".into(), name: Some("GPT-4o".into()) },
        UpstreamModel { id: "meta/llama".into(), name: None },
        UpstreamModel { id: "anthropic/sonnet".into(), name: None },
        UpstreamModel { id: "openai/gpt-4o".into(), name: Some("dup".into()) },
    ];
    let c = catalog(&up);
    let got: Vec<(&str, &str)> = c.models.iter().map(|m| (m.id.as_str(), m.name.as_str())).collect();
    assert_eq!(got, vec![("anthropic/sonnet", "anthropic/sonnet"), ("openai/gpt-4o", "GPT-4o"), ("openai/gpt-4o", "dup")]);
}

#[test]
fn provider_choice_for_one_off_requests() {
    assert_eq!(provider_source(RegistryRefresh::Rebuilt { has_provider: true }, false, "openai").unwrap(), ProviderSource::Rebuilt);
    assert_eq!(provider_source(RegistryRefresh::Rebuilt { has_provider: false }, true, "openai").unwrap(), ProviderSource::Boot);
    let e = provider_source(RegistryRefresh::Rebuilt { has_provider: false }, false, "openai").unwrap_err();
    assert_eq!(e.message, "provider `openai` has no configured API key");
    assert_eq!(provider_source(RegistryRefresh::NoConfig, false, "x").unwrap_err().status, 503);
    assert_eq!(provider_source(RegistryRefresh::SecretStoreFailed { message: "m".into() }, false, "x").unwrap_err().error, "secret_store_error");
    assert_eq!(provider_source(RegistryRefresh::RefreshFailed { message: "m".into() }, true, "x").unwrap(), ProviderSource::Boot);
}
