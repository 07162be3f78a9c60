use anseo_api::json::JsonValue;
use anseo_api::plugins::{
    assemble_marketplace, current_registry_entries, install_signature_status, install_step, installed_only_plugin,
    into_marketplace_plugin, plugin_status_item, recorded_install, recorded_unsigned_install, removal_result,
    FetchOutcome, InstallRecord, InstallStep, LoadStatus, ManifestMetadata, RegistryEntry,
};

fn entry(id: &str, version: &str) -> RegistryEntry {
    RegistryEntry {
        id: id.to_string(),
        version: version.to_string(),
        description: format!("{id} connector"),
        sha256: "00".repeat(32),
        yanked: false,
    }
}

fn network_caps() -> JsonValue {
    JsonValue::Array(vec![JsonValue::Object(vec![
        ("kind".to_string(), JsonValue::Str("network".to_string())),
        (
            "allowlist".to_string(),
            JsonValue::Array(vec![JsonValue::Str("warehouse.example.com".to_string())]),
        ),
    ])])
}

fn install(name: &str, version: &str, verified: bool) -> InstallRecord {
    InstallRecord {
        plugin_name: name.to_string(),
        plugin_version: version.to_string(),
        signature_verified: verified,
        capability_set: JsonValue::Array(vec![]),
    }
}

#[test]
fn marketplace_rows_use_manifest_metadata_for_registry_plugins() {
    let plugin = into_marketplace_plugin(
        entry("acme/warehouse", "1.2.3"),
        Some(ManifestMetadata {
            name: "Warehouse Sync".to_string(),
            author: "Acme".to_string(),
            homepage: "https://example.com/plugins/warehouse".to_string(),
            plugin_type: "provider".to_string(),
            capabilities: network_caps(),
        }),
        None,
    );
    assert_eq!(plugin.name, "Warehouse Sync");
    assert_eq!(plugin.author, "Acme");
    assert_eq!(plugin.homepage, "https://example.com/plugins/warehouse");
    assert_eq!(plugin.plugin_type, "provider");
    assert!(matches!(plugin.capabilities, JsonValue::Array(ref a) if a.len() == 1));
    assert!(!plugin.installed);
    assert_eq!(plugin.signature_status, "unsigned");
}

#[test]
fn registry_row_without_metadata_falls_back_to_slug() {
    let p = into_marketplace_plugin(entry("acme/x", "2.0.0"), None, Some(install("acme/x", "1.0.0", true)));
    assert_eq!(p.name, "acme/x");
    assert_eq!(p.plugin_type, "extractor");
    assert!(p.installed);
    assert_eq!(p.installed_version.as_deref(), Some("1.0.0"));
    assert_eq!(p.signature_status, "signed");
    assert!(p.verified);
    assert!(p.update_available);
}

#[test]
fn installed_only_rows_come_from_the_audit_row() {
    let p = installed_only_plugin(install("private/tool", "0.1.0", false));
    assert_eq!(p.slug, "private/tool");
    assert_eq!(p.version, "0.1.0");
    assert_eq!(p.signature_status, "unsigned");
    assert!(p.installed);
    assert!(!p.update_available);
    assert_eq!(install_signature_status(&install("a", "1", true)), "signed");
}

#[test]
fn registry_collapses_to_highest_version_per_plugin() {
    let entries = vec![entry("a/one", "1.0.0"), entry("b/two", "0.9.0"), entry("a/one", "1.2.0"), entry("a/one", "1.1.0")];
    let current = current_registry_entries(&entries);
    assert_eq!(current.len(), 2);
    let a = current.iter().find(|e| e.id == "a/one").unwrap();
    assert_eq!(a.version, "1.2.0");
    let b = current.iter().find(|e| e.id == "b/two").unwrap();
    assert_eq!(b.version, "0.9.0");
}

#[test]
fn marketplace_is_sorted_and_keeps_installed_only_plugins() {
    let current = vec![(entry("zeta/z", "1.0.0"), None), (entry("alpha/a", "2.0.0"), None)];
    let installed = vec![install("alpha/a", "1.0.0", true), install("mid/m", "0.5.0", false), install("alpha/a", "2.0.0", true)];
    let rows = assemble_marketplace(current, installed);
    let slugs: Vec<&str> = rows.iter().map(|p| p.slug.as_str()).collect();
    assert_eq!(slugs, vec!["alpha/a", "mid/m", "zeta/z"]);
    // The later install row of a plugin is the one that counts.
    assert_eq!(rows[0].installed_version.as_deref(), Some("2.0.0"));
    assert!(!rows[0].update_available);
    assert!(rows[1].installed);
    assert!(!rows[2].installed);
}

#[test]
fn install_flow_decisions() {
    assert!(matches!(install_step(FetchOutcome::Verified { signed: true }, false), InstallStep::RecordVerified { signed: true }));
    match install_step(FetchOutcome::Unsigned { version: "1.0.0".into() }, false) {
        InstallStep::Respond(r) => {
            assert!(!r.ok);
            assert_eq!(r.error_kind.as_deref(), Some("signing_failed"));
            assert_eq!(r.message, "Unsigned plugin — install not acknowledged.");
        }
        other => panic!("unexpected {other:?}"),
    }
    assert!(matches!(
        install_step(FetchOutcome::Unsigned { version: "1.0.0".into() }, true),
        InstallStep::RecordUnsigned { ref version } if version == "1.0.0"
    ));
    match install_step(FetchOutcome::VerificationFailed { reason: "bad sig".into() }, true) {
        InstallStep::Respond(r) => {
            assert_eq!(r.signature_status, "revoked");
            assert_eq!(r.message, "Signature verification failed: bad sig");
        }
        other => panic!("unexpected {other:?}"),
    }
    match install_step(FetchOutcome::UnknownPlugin { id: "a/b".into(), version: "latest".into() }, false) {
        InstallStep::Refuse(e) => {
            assert_eq!(e.status, 404);
            assert_eq!(e.message, "`a/b@latest` is not in the registry index");
        }
        other => panic!("unexpected {other:?}"),
    }
    match install_step(FetchOutcome::Unreachable, false) {
        InstallStep::Respond(r) => assert_eq!(r.error_kind.as_deref(), Some("network")),
        other => panic!("unexpected {other:?}"),
    }
    match install_step(FetchOutcome::Failed { reason: "boom".into() }, false) {
        InstallStep::Refuse(e) => assert_eq!((e.status, e.error.as_str()), (502, "registry_error")),
        other => panic!("unexpected {other:?}"),
    }
}

#[test]
fn recorded_installs_and_removals() {
    let r = recorded_install(false, "42".into());
    assert!(r.ok);
    assert_eq!(r.signature_status, "unsigned");
    assert_eq!(r.audit_event_id.as_deref(), Some("42"));
    let u = recorded_unsigned_install("7".into());
    assert_eq!(u.message, "Unsigned plugin installed. Restart the worker to load it.");
    assert!(removal_result(1, "a/b").is_ok());
    let e = removal_result(0, "a/b").unwrap_err();
    assert_eq!(e.message, "no active install found for `a/b`");
    let item = plugin_status_item("a".into(), "1".into(), "extractor".into(), LoadStatus::LoadError, "x".into());
    assert_eq!(item.status, "load_error");
}
