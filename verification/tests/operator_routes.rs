use anseo_api::auth::AuthenticatedOperator;
use anseo_api::operator_entities::{
    clamp_limit, clamp_offset, decide_kek_action, mint_confirm_token, resolve_actor, verify_confirm_token,
    EntityProjectMapping, KekAction, DEFAULT_LIMIT, ERASE_TOKEN_TTL_SECS, MAX_LIMIT,
};
use anseo_api::operator_plane1::{
    clamp_limit as plane1_clamp_limit, clamp_offset as plane1_clamp_offset, derive_kek_status, parse_event, parse_tier,
    ConsentTier,
};

#[test]
fn operator_entities_limit_offset_clamping() {
    assert_eq!(clamp_limit(None), DEFAULT_LIMIT);
    assert_eq!(clamp_limit(Some(0)), 1);
    assert_eq!(clamp_limit(Some(-5)), 1);
    assert_eq!(clamp_limit(Some(10_000)), MAX_LIMIT);
    assert_eq!(clamp_limit(Some(25)), 25);
    assert_eq!(clamp_offset(None), 0);
    assert_eq!(clamp_offset(Some(-1)), 0);
    assert_eq!(clamp_offset(Some(40)), 40);
}

#[test]
fn operator_plane1_limit_offset_clamping() {

    assert_eq!(plane1_clamp_limit(None), DEFAULT_LIMIT);
    assert_eq!(plane1_clamp_limit(Some(0)), 1);
    assert_eq!(plane1_clamp_limit(Some(10_000)), MAX_LIMIT);
    assert_eq!(plane1_clamp_offset(Some(-1)), 0);
}

#[test]
fn actor_resolution_precedence() {
    let op = AuthenticatedOperator { actor: Some("from-header".into()) };
    assert_eq!(resolve_actor(Some("from-body"), &op), "from-body");
    assert_eq!(resolve_actor(Some("  "), &op), "from-header");
    assert_eq!(resolve_actor(None, &op), "from-header");
    let none = AuthenticatedOperator { actor: None };
    assert_eq!(resolve_actor(None, &none), "operator");
}

#[test]
fn confirm_token_round_trips_and_is_bound() {
    let key = b"operator-secret-key";
    let now = 1_000_000u64;
    let tok = mint_confirm_token(key, "example.com", "alice", now);
    assert!(verify_confirm_token(key, &tok, "example.com", "alice", now));
    assert!(!verify_confirm_token(key, &tok, "other.com", "alice", now));
    assert!(!verify_confirm_token(key, &tok, "example.com", "bob", now));
    assert!(!verify_confirm_token(key, &tok, "example.com", "alice", now + ERASE_TOKEN_TTL_SECS + 1));
    assert!(!verify_confirm_token(b"different-key", &tok, "example.com", "alice", now));
    assert!(!verify_confirm_token(key, "not-a-token", "example.com", "alice", now));
}

#[test]
fn kek_action_destroys_only_for_unique_mapping() {
    let act = decide_kek_action(&EntityProjectMapping::Unique("proj-1".into()));
    assert_eq!(act, KekAction::Destroy { project_id: "proj-1".into() });
    let act = decide_kek_action(&EntityProjectMapping::NoProject);
    assert!(matches!(act, KekAction::Skip { .. }));
    let act = decide_kek_action(&EntityProjectMapping::Ambiguous { project_ids: vec!["a".into(), "b".into()] });
    match act {
        KekAction::Skip { reason } => assert!(reason.contains("2 projects")),
        other => panic!("expected Skip, got {other:?}"),
    }
}

#[test]
fn kek_status_derivation() {
    assert_eq!(derive_kek_status(true, true), "active");
    assert_eq!(derive_kek_status(true, false), "active");
    assert_eq!(derive_kek_status(false, true), "shredded");
    assert_eq!(derive_kek_status(false, false), "pending");
}

#[test]
fn tier_event_parse() {
    assert!(parse_tier(None).unwrap().is_none());
    assert_eq!(parse_tier(Some("anonymous")).unwrap(), Some(ConsentTier::Anonymous));
    assert_eq!(parse_tier(Some("brand_visibility")).unwrap(), Some(ConsentTier::BrandVisibility));
    assert!(parse_tier(Some("bogus")).is_err());
    assert_eq!(parse_event(Some("optin")).unwrap(), Some("optin".to_string()));
    assert!(parse_event(Some("nope")).is_err());
}

#[test]
fn confirm_token_has_hex_mac_and_expiry() {
    let tok = mint_confirm_token(b"k", "d.com", "a", 10);
    let (mac, expiry) = tok.rsplit_once('.').expect("mac.expiry");
    assert_eq!(expiry, (10 + ERASE_TOKEN_TTL_SECS).to_string());
    assert_eq!(mac.len(), 64);
    assert!(mac.chars().all(|c| c.is_ascii_hexdigit() && !c.is_ascii_uppercase()));
}

#[test]
fn confirm_token_fields_cannot_be_reshuffled() {
    let tok = mint_confirm_token(b"k", "a|b", "c", 0);
    assert!(verify_confirm_token(b"k", &tok, "a|b", "c", 0));
    assert!(!verify_confirm_token(b"k", &tok, "a", "b|c", 0));
    assert!(!verify_confirm_token(b"k", &tok, "a|b|c", "", 0));
}
