use anseo_api::account::{mfa_revocation, operator_id_from_ctx, session_revocation};
use anseo_api::authz::{authz_step, authz_verdict, AuthzStep, OrgContext, Role};
use anseo_api::dsar::{
    check_dsar_kind, completion_result, export_grace_days, select_dsar_request, shred_result, storage_failure,
    CreateDsarBody, DsarKind, DsarRequestSummary, InitiateOffboardBody,
};
use anseo_api::impersonation::{grant_minutes, require_operator_identity, revocation_result, CreateGrantBody};
use anseo_api::org_guc::guc_settings;
use anseo_api::orgs::{audit_actor, audit_log_limit, brand_scope, creation_failure, AuditLogQuery, BrandScope, RoleGrants};
use anseo_api::portal_grants::{actor_login, portal_revocation, portal_scope};

#[test]
fn impersonation_grants_are_capped_at_four_hours() {
    let body = |d: Option<i64>| CreateGrantBody { reason: "support".into(), duration_minutes: d };
    assert_eq!(grant_minutes(&body(None)), 60);
    assert_eq!(grant_minutes(&body(Some(30))), 30);
    assert_eq!(grant_minutes(&body(Some(10_000))), 240);
    assert_eq!(require_operator_identity(None).unwrap_err().status, 401);
    assert_eq!(require_operator_identity(Some(7)).unwrap(), 7);
    assert_eq!(revocation_result(true).unwrap(), 204);
    assert_eq!(revocation_result(false).unwrap_err().error, "grant not found or already revoked");
}

#[test]
fn dsar_requests_and_offboarding() {
    let body = |k: &str| CreateDsarBody { kind: k.into(), subject_email: "a@b.c".into(), legal_basis: "gdpr".into() };
    assert_eq!(check_dsar_kind(&body("access")).unwrap(), DsarKind::Access);
    assert_eq!(check_dsar_kind(&body("erasure")).unwrap(), DsarKind::Erasure);
    assert_eq!(check_dsar_kind(&body("delete")).unwrap_err().status, 422);
    let reqs = vec![
        DsarRequestSummary { id: 1, kind: "access".into(), subject_email: "a".into(), legal_basis: "x".into() },
        DsarRequestSummary { id: 2, kind: "erasure".into(), subject_email: "b".into(), legal_basis: "y".into() },
    ];
    assert_eq!(select_dsar_request(&reqs, 2, DsarKind::Erasure).unwrap(), 1);
    let e = select_dsar_request(&reqs, 1, DsarKind::Erasure).unwrap_err();
    assert_eq!((e.status, e.error.as_str()), (422, "only erasure requests can be executed"));
    let e = select_dsar_request(&reqs, 2, DsarKind::Access).unwrap_err();
    assert_eq!(e.error, "only access requests can produce exports");
    assert_eq!(select_dsar_request(&reqs, 9, DsarKind::Access).unwrap_err().status, 404);
    let grace = |g: Option<i64>| export_grace_days(&InitiateOffboardBody {
        stripe_subscription_id: None,
        stripe_customer_id: None,
        export_grace_days: g,
    });
    assert_eq!(grace(None), 30);
    assert_eq!(grace(Some(0)), 1);
    assert_eq!(grace(Some(365)), 90);
    assert_eq!(storage_failure("disk full").error, "storage: disk full");
    assert_eq!(shred_result(false).unwrap_err().status, 409);
    assert_eq!(completion_result(true).unwrap(), 204);
}

#[test]
fn org_creation_and_brand_scope() {
    let e = creation_failure("duplicate key value violates unique constraint".into());
    assert_eq!((e.status, e.error.as_str()), (409, "slug_conflict"));
    let e = creation_failure("connection reset".into());
    assert_eq!((e.status, e.message.as_str()), (500, "connection reset"));
    assert_eq!(audit_actor(None), "system");
    assert_eq!(audit_actor(Some("alice".into())), "alice");
    let bypass = RoleGrants { bypasses_grants: true, requires_grant: false };
    let granted = RoleGrants { bypasses_grants: false, requires_grant: true };
    let neither = RoleGrants { bypasses_grants: false, requires_grant: false };
    assert_eq!(brand_scope(Some(bypass), Some(5)), BrandScope::All);
    assert_eq!(brand_scope(Some(granted), Some(5)), BrandScope::GrantedTo(5));
    assert_eq!(brand_scope(Some(neither), Some(5)), BrandScope::Nothing);
    assert_eq!(brand_scope(None, None), BrandScope::All);
    assert_eq!(audit_log_limit(&AuditLogQuery { action: None, actor: None, limit: None }), 200);
    assert_eq!(audit_log_limit(&AuditLogQuery { action: None, actor: None, limit: Some(5000) }), 1000);
}

#[test]
fn authorization_decisions() {
    assert_eq!(authz_step(false, None), AuthzStep::PassThrough);
    assert_eq!(authz_step(true, None), AuthzStep::PassThrough);
    assert_eq!(authz_step(true, Some(OrgContext { operator_id: None, org_id: 1 })), AuthzStep::AsOperator);
    assert_eq!(
        authz_step(true, Some(OrgContext { operator_id: Some(2), org_id: 1 })),
        AuthzStep::LookupRole { operator_id: 2, org_id: 1 }
    );
    assert_eq!(authz_verdict(None, false, "OrgRead").unwrap_err(), "not a member of this org");
    assert_eq!(authz_verdict(Some(Role::Admin), true, "OrgRead").unwrap(), Role::Admin);
    assert_eq!(
        authz_verdict(Some(Role::Viewer), false, "BillingRead").unwrap_err(),
        "role Viewer is not permitted to perform BillingRead"
    );
}

#[test]
fn account_portal_and_session_settings() {
    assert_eq!(operator_id_from_ctx(None).unwrap_err().status, 401);
    assert_eq!(session_revocation(0).unwrap_err().error, "session not found or already revoked");
    assert_eq!(mfa_revocation(1).unwrap(), 204);
    assert_eq!(actor_login(None), "system");
    let id = uuid::Uuid::new_v4();
    assert_eq!(actor_login(Some(id.as_u128())), id.to_string());
    assert_eq!(portal_revocation(false).unwrap_err().status, 404);
    let s = portal_scope(Some(3), Some(9)).unwrap();
    assert!(s.is_portal);
    assert_eq!(s.portal_brand_id, Some(9));
    assert_eq!(portal_scope(None, None).unwrap_err().status, 401);
    let org = uuid::Uuid::new_v4();
    let op = uuid::Uuid::new_v4();
    let settings = guc_settings(Some(OrgContext { operator_id: Some(op.as_u128()), org_id: org.as_u128() }));
    assert_eq!(settings, vec![("app.org", org.to_string()), ("app.operator", op.to_string())]);
    assert!(guc_settings(None).is_empty());
}
