use anseo_api::geo_gate::{current_blocked_jurisdictions, extract_country_code, geo_gate, is_identified_tier};

#[test]
fn default_then_custom_blocked_list() {
    let list = current_blocked_jurisdictions(None);
    assert!(list.contains(&"CN".to_string()));
    assert!(list.contains(&"IN".to_string()));
    assert!(list.contains(&"BR".to_string()));

    let list = current_blocked_jurisdictions(Some("DE, FR, JP"));
    assert!(list.contains(&"DE".to_string()));
    assert!(list.contains(&"FR".to_string()));
    assert!(list.contains(&"JP".to_string()));
    assert!(!list.contains(&"CN".to_string()));
}

#[test]
fn empty_list_allows_all() {
    let list = current_blocked_jurisdictions(Some(""));
    assert!(list.is_empty());
    assert!(geo_gate("/v1/claim", &list, Some("CN")).is_none());
}

#[test]
fn identified_tier_paths_detected() {
    assert!(is_identified_tier("/v1/benchmark/contributions"));
    assert!(is_identified_tier("/v1/claim"));
    assert!(is_identified_tier("/v1/benchmark/optin"));
    assert!(is_identified_tier("/v1/benchmark/brands/leaderboard"));
}

#[test]
fn anonymous_tier_paths_not_detected() {
    assert!(!is_identified_tier("/v1/benchmark/density-check"));
    assert!(!is_identified_tier("/v1/visibility/trend"));
    assert!(!is_identified_tier("/v1/runs"));
    assert!(!is_identified_tier("/healthz"));
}

#[test]
fn blocked_jurisdictions_are_blocked() {
    let blocked = vec!["CN".to_string(), "IN".to_string(), "BR".to_string()];
    assert!(blocked.contains(&"CN".to_string()));
    assert!(!blocked.contains(&"US".to_string()));
    let refused = geo_gate("/v1/claim", &blocked, Some("CN")).expect("refused");
    assert_eq!(refused.status, 403);
    assert_eq!(refused.error, "jurisdiction_restricted");
    assert!(geo_gate("/v1/claim", &blocked, Some("US")).is_none());
    assert!(geo_gate("/v1/runs", &blocked, Some("CN")).is_none());
}

#[test]
fn country_code_prefers_cloudflare_header() {
    assert_eq!(extract_country_code(Some(" de "), Some("FR")), Some("DE".to_string()));
    assert_eq!(extract_country_code(Some("XX"), Some("fr")), Some("FR".to_string()));
    assert_eq!(extract_country_code(Some("T1"), None), None);
    assert_eq!(extract_country_code(None, Some("usa")), None);
}
