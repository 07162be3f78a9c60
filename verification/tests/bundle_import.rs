use std::io::Write;

use anseo_api::bundle_import::{
    check_bundle_version, decompress_bundle, new_summary, plan_import, record_insert, Bundle, BundlePrompt,
    BundleProject, BundleRun, ImportOp,
};
use anseo_api::wire::Timestamp;

const T0: Timestamp = Timestamp { secs: 1_700_000_000, nanos: 0 };
const P1: &str = "11111111-1111-1111-1111-111111111111";
const Q1: &str = "22222222-2222-2222-2222-222222222222";
const R1: &str = "33333333-3333-3333-3333-333333333333";
const R2: &str = "44444444-4444-4444-4444-444444444444";

fn gzip(bytes: &[u8]) -> Vec<u8> {
    let mut enc = flate2::write::GzEncoder::new(Vec::new(), flate2::Compression::default());
    enc.write_all(bytes).unwrap();
    enc.finish().unwrap()
}

fn run(id: &str) -> BundleRun {
    BundleRun {
        id: id.to_string(),
        provider: "openai".to_string(),
        provider_model_version: "gpt-4o".to_string(),
        status: "ok".to_string(),
        started_at: T0,
        finished_at: None,
        created_at: T0,
    }
}

fn bundle(run_ids: &[&str]) -> Bundle {
    Bundle {
        bundle_version: "1.0".to_string(),
        exported_at: T0,
        projects: vec![BundleProject {
            id: P1.to_string(),
            name: "acme".to_string(),
            created_at: T0,
            prompts: vec![BundlePrompt {
                id: Q1.to_string(),
                name: "q".to_string(),
                text: "text".to_string(),
                tags: vec![],
                created_at: T0,
                runs: run_ids.iter().map(|r| run(r)).collect(),
            }],
        }],
    }
}

#[test]
fn gzip_body_is_decompressed() {
    let body = gzip(b"{\"bundle_version\":\"1.0\"}");
    let out = decompress_bundle(&body).expect("valid gzip");
    assert_eq!(out, b"{\"bundle_version\":\"1.0\"}".to_vec());
    assert_ne!(out, body);
}

#[test]
fn corrupt_gzip_is_refused_422() {
    let e = decompress_bundle(b"not a gzip stream").err().expect("corrupt stream refused");
    assert_eq!(e.status, 422);
    assert!(e.error.starts_with("decompression failed: "));
}

#[test]
fn only_major_version_one_is_imported() {
    assert!(check_bundle_version("1.0").is_ok());
    assert!(check_bundle_version("1.7.2").is_ok());
    let e = check_bundle_version("2.0").err().expect("v2 refused");
    assert_eq!(e.status, 422);
    assert_eq!(e.error, "unsupported bundle_version: 2.0");
}

#[test]
fn plan_orders_project_then_prompt_then_runs() {
    let ops = plan_import(&bundle(&[R1, R2]));
    assert_eq!(ops.len(), 4);
    let p = u128::from_str_radix("11111111111111111111111111111111", 16).unwrap();
    let q = u128::from_str_radix("22222222222222222222222222222222", 16).unwrap();
    assert!(matches!(ops[0], ImportOp::Project { p: 0, id } if id == p));
    assert!(matches!(ops[1], ImportOp::Prompt { p: 0, q: 0, id, project } if id == q && project == p));
    assert!(matches!(ops[2], ImportOp::Run { r: 0, prompt, .. } if prompt == q));
    assert!(matches!(ops[3], ImportOp::Run { r: 1, .. }));
}

#[test]
fn plan_stops_at_the_first_invalid_id() {
    let ops = plan_import(&bundle(&["not-a-uuid", R2]));
    assert_eq!(ops.len(), 3);
    match &ops[2] {
        ImportOp::Invalid { error } => assert_eq!(error, "invalid run id: not-a-uuid"),
        other => panic!("expected a stop, got {:?}", other),
    }
}

#[test]
fn tally_counts_inserts_and_skipped_duplicates() {
    let ops = plan_import(&bundle(&[R1]));
    let mut s = new_summary("1.0".to_string());
    record_insert(&mut s, &ops[0], 1);
    record_insert(&mut s, &ops[1], 1);
    record_insert(&mut s, &ops[2], 0);
    assert_eq!(
        (s.projects_imported, s.prompts_imported, s.runs_imported, s.skipped_duplicate_ids),
        (1, 1, 0, 1)
    );
    assert_eq!(s.bundle_version, "1.0");
}
