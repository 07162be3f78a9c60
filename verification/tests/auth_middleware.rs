use anseo_api::auth::{
    api_key_header_value, api_key_verdict, authorize_operator, ct_eq, ct_eq_str, operator_auth_status, ApiKeyEvidence, OPERATOR_ACTOR_HEADER,
    OPERATOR_API_KEY_ENV,
};

#[test]
fn operator_key_constant_time_compare() {
    assert!(ct_eq(b"ogeo_secret_operator", b"ogeo_secret_operator"));
    assert!(!ct_eq(b"ogeo_tenant_project_key", b"ogeo_secret_operator"));
    assert!(!ct_eq(b"short", b"longer-value"));
}

#[test]
fn operator_header_constants_match_spec() {
    assert_eq!(OPERATOR_ACTOR_HEADER, "X-Anseo-Operator-Actor");
    assert_eq!(OPERATOR_API_KEY_ENV, "ANSEO_OPERATOR_API_KEY");
}

#[test]
fn constant_time_string_equality() {
    assert!(ct_eq_str("abc", "abc"));
    assert!(!ct_eq_str("abc", "abd"));
    assert!(!ct_eq_str("abc", "abcd"));
}

#[test]
fn api_key_header_prefers_the_current_name() {
    assert_eq!(api_key_header_value(Some(Some("new")), Some(Some("old"))), Some("new"));
    assert_eq!(api_key_header_value(None, Some(Some("old"))), Some("old"));
    assert_eq!(api_key_header_value(Some(None), Some(Some("old"))), None);
    assert_eq!(api_key_header_value(None, None), None);
}

#[test]
fn api_key_gate_answers_401_unless_the_key_is_active() {
    assert_eq!(api_key_verdict(ApiKeyEvidence::Active("proj-1".into())), Ok("proj-1".to_string()));
    assert_eq!(api_key_verdict(ApiKeyEvidence::NoToken), Err(401));
    assert_eq!(api_key_verdict(ApiKeyEvidence::Malformed), Err(401));
    assert_eq!(api_key_verdict(ApiKeyEvidence::Unknown), Err(401));
    assert_eq!(api_key_verdict(ApiKeyEvidence::LookupFailed), Err(401));
}

#[test]
fn operator_gate_answers_503_401_403_and_admits_the_key() {
    let status = |c: Option<&str>, t: Option<&str>| authorize_operator(c, t, None).err().map(operator_auth_status);
    assert_eq!(status(None, Some("k")), Some(503));
    assert_eq!(status(Some("   "), Some("k")), Some(503));
    assert_eq!(status(Some("op-key"), None), Some(401));
    assert_eq!(status(Some("op-key"), Some("ogeo_tenant_project_key")), Some(403));
    let op = authorize_operator(Some(" op-key "), Some("op-key"), Some("  alice ")).expect("admitted");
    assert_eq!(op.actor.as_deref(), Some("alice"));
    let op = authorize_operator(Some("op-key"), Some("op-key"), Some("  ")).expect("admitted");
    assert_eq!(op.actor, None);
}
