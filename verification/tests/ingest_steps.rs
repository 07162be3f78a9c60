use anseo_api::ingest::{
    ingest_start, next_ingest_step, ConsentRead, ContributionInsert, ContributionStatus, IngestAction, IngestEvent,
    KekLoad, PromptLookup, RunInsert,
};

fn refusal(a: &IngestAction) -> Option<(u16, &str, &str)> {
    match a {
        IngestAction::Refuse(e) => Some((e.status, e.error.as_str(), e.message.as_str())),
        _ => None,
    }
}

#[test]
fn contributing_run_is_sealed_and_committed_with_its_run() {
    let (s, a) = ingest_start("vector-db".into(), true);
    assert!(matches!(a, IngestAction::LookUpPrompt));
    let (s, a) = next_ingest_step(s, IngestEvent::PromptLookedUp(PromptLookup::Found));
    assert!(matches!(a, IngestAction::LoadKek));
    let (s, a) = next_ingest_step(s, IngestEvent::KekLoaded(KekLoad::Loaded));
    assert!(matches!(a, IngestAction::ReadConsent));
    let (s, a) = next_ingest_step(s, IngestEvent::ConsentLoaded(ConsentRead::Row { active: true }));
    assert!(matches!(a, IngestAction::RedactAndSeal));
    let (s, a) = next_ingest_step(s, IngestEvent::Sealed(Ok(())));
    assert!(matches!(a, IngestAction::BeginTransaction));
    let (s, a) = next_ingest_step(s, IngestEvent::TransactionBegun(true));
    assert!(matches!(a, IngestAction::InsertRun));
    let (s, a) = next_ingest_step(s, IngestEvent::RunInserted(RunInsert::Inserted));
    assert!(matches!(a, IngestAction::InsertContribution));
    let (s, a) = next_ingest_step(s, IngestEvent::ContributionInserted(ContributionInsert::Stored));
    assert!(matches!(a, IngestAction::Commit));
    let (_, a) = next_ingest_step(s, IngestEvent::Committed(true));
    assert!(matches!(a, IngestAction::Accept { contribution: ContributionStatus::Sealed }));
}

#[test]
fn missing_kek_is_refused_before_anything_is_written() {
    let (s, _) = ingest_start("vector-db".into(), true);
    let (s, _) = next_ingest_step(s, IngestEvent::PromptLookedUp(PromptLookup::Found));
    let (s, a) = next_ingest_step(s, IngestEvent::KekLoaded(KekLoad::Missing));
    assert_eq!(refusal(&a).map(|r| (r.0, r.1)), Some((403, "kek_missing")));
    assert!(!s.run_inserted);
}

#[test]
fn non_contributing_run_skips_the_kek_and_commits_without_a_contribution() {
    let (s, _) = ingest_start("vector-db".into(), false);
    let (s, a) = next_ingest_step(s, IngestEvent::PromptLookedUp(PromptLookup::Found));
    assert!(matches!(a, IngestAction::ReadConsent));
    let (s, a) = next_ingest_step(s, IngestEvent::ConsentLoaded(ConsentRead::Row { active: true }));
    assert!(matches!(a, IngestAction::BeginTransaction));
    let (s, _) = next_ingest_step(s, IngestEvent::TransactionBegun(true));
    let (s, a) = next_ingest_step(s, IngestEvent::RunInserted(RunInsert::Inserted));
    assert!(matches!(a, IngestAction::Commit));
    let (_, a) = next_ingest_step(s, IngestEvent::Committed(true));
    assert!(matches!(a, IngestAction::Accept { contribution: ContributionStatus::SkippedNotOptedIn }));
}

#[test]
fn storage_failures_map_to_their_answers() {
    let start = || {
        let (s, _) = ingest_start("vector-db".into(), false);
        let (s, _) = next_ingest_step(s, IngestEvent::PromptLookedUp(PromptLookup::Found));
        let (s, _) = next_ingest_step(s, IngestEvent::ConsentLoaded(ConsentRead::NoRow));
        let (s, _) = next_ingest_step(s, IngestEvent::TransactionBegun(true));
        s
    };
    let (_, a) = next_ingest_step(start(), IngestEvent::RunInserted(RunInsert::ForeignKeyViolation));
    assert_eq!(refusal(&a).map(|r| (r.0, r.1)), Some((422, "prompt_not_found")));
    let (_, a) = next_ingest_step(start(), IngestEvent::RunInserted(RunInsert::Failed));
    assert_eq!(refusal(&a), Some((500, "persist_failed", "failed to persist ingested run")));
    let (s, _) = next_ingest_step(start(), IngestEvent::RunInserted(RunInsert::Inserted));
    let (_, a) = next_ingest_step(s, IngestEvent::Committed(false));
    assert_eq!(refusal(&a), Some((500, "persist_failed", "failed to persist ingested run")));

    let (s, _) = ingest_start("missing".into(), false);
    let (_, a) = next_ingest_step(s, IngestEvent::PromptLookedUp(PromptLookup::NotFound));
    assert_eq!(refusal(&a).map(|r| (r.0, r.1)), Some((422, "prompt_not_found")));
    let (s, _) = ingest_start("x".into(), false);
    let (s, _) = next_ingest_step(s, IngestEvent::PromptLookedUp(PromptLookup::Found));
    let (_, a) = next_ingest_step(s, IngestEvent::ConsentLoaded(ConsentRead::Failed));
    assert_eq!(refusal(&a), Some((500, "internal_error", "failed to read benchmark consent")));
}

#[test]
fn sealed_contribution_failures_are_refused_uncommitted() {
    let sealed_run = || {
        let (s, _) = ingest_start("vector-db".into(), true);
        let (s, _) = next_ingest_step(s, IngestEvent::PromptLookedUp(PromptLookup::Found));
        let (s, _) = next_ingest_step(s, IngestEvent::KekLoaded(KekLoad::Loaded));
        let (s, _) = next_ingest_step(s, IngestEvent::ConsentLoaded(ConsentRead::Row { active: true }));
        let (s, _) = next_ingest_step(s, IngestEvent::Sealed(Ok(())));
        let (s, _) = next_ingest_step(s, IngestEvent::TransactionBegun(true));
        let (s, _) = next_ingest_step(s, IngestEvent::RunInserted(RunInsert::Inserted));
        s
    };
    let (_, a) = next_ingest_step(sealed_run(), IngestEvent::ContributionInserted(ContributionInsert::Failed));
    assert_eq!(refusal(&a), Some((500, "persist_failed", "failed to persist sealed benchmark contribution")));
    let (_, a) = next_ingest_step(sealed_run(), IngestEvent::ContributionInserted(ContributionInsert::SerializeFailed));
    assert_eq!(refusal(&a), Some((500, "persist_failed", "failed to serialize sealed contribution")));
    let (s, _) = ingest_start("vector-db".into(), true);
    let (s, _) = next_ingest_step(s, IngestEvent::PromptLookedUp(PromptLookup::Found));
    let (_, a) = next_ingest_step(s, IngestEvent::KekLoaded(KekLoad::Failed));
    assert_eq!(refusal(&a), Some((500, "internal_error", "failed to load project benchmark key")));
}
