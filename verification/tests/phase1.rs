use ficant_application::error::{ApplicationError, ApplicationErrorCategory, DomainErrorCode, Rejection};
use ficant_application::phase1::{
    JournalEventType, Phase1RequestFacts, StagedSnapshotFacts, StagedSnapshotKind, check_artifact_verified,
    check_phase1_request, plan_phase1_journal,
};
use ficant_application::primitives::{LineageRef, OwnerRef};

fn owner() -> OwnerRef {
    OwnerRef::new("tenant".to_owned(), "owner".to_owned())
}

fn snapshot(kind: StagedSnapshotKind, id: &str, lineage: Vec<LineageRef>) -> StagedSnapshotFacts {
    StagedSnapshotFacts { kind, id: id.to_owned(), content_hash: id.as_bytes().to_vec(), owner: owner(), lineage, scopes_match: true }
}

fn addressed(id: &str) -> LineageRef {
    LineageRef::new(id.to_owned(), None, Some(id.as_bytes().to_vec()))
}

fn fact() -> LineageRef {
    LineageRef::new("fact".to_owned(), Some(1), Some(b"fact-hash".to_vec()))
}

fn facts() -> Phase1RequestFacts {
    Phase1RequestFacts {
        fact_authorized: Ok(()),
        run_authorized: Ok(()),
        run_snapshot_check: Ok(()),
        owner_authorized: Ok(()),
        idempotency_scoped: Ok(()),
        fact_owner: owner(),
        fact_lineage: fact(),
        data_snapshot: snapshot(StagedSnapshotKind::Data, "data", vec![fact()]),
        universe_snapshot: snapshot(StagedSnapshotKind::Universe, "universe", vec![]),
        run_id: "run".to_owned(),
        run_owner: owner(),
        run_data_snapshot: addressed("data"),
        run_universe_snapshot: addressed("universe"),
        artifact_owner: owner(),
        artifact_scope_matches: true,
        signal_owner: owner(),
        signal_run_id: "run".to_owned(),
        signal_data_snapshot: addressed("data"),
        signal_universe_snapshot: addressed("universe"),
    }
}

#[test]
fn consistent_phase1_request_is_bound() {
    assert_eq!(check_phase1_request(&facts()), Ok(()));
}

#[test]
fn phase1_request_checks_come_in_order() {
    let denied = ApplicationError::new(ApplicationErrorCategory::Forbidden, false);
    let mut unauthorized = facts();
    unauthorized.run_authorized = Err(denied);
    unauthorized.data_snapshot.kind = StagedSnapshotKind::Universe;
    assert_eq!(check_phase1_request(&unauthorized), Err(Rejection::Application(denied)));

    let mut wrong_kind = facts();
    wrong_kind.universe_snapshot.kind = StagedSnapshotKind::Data;
    assert_eq!(check_phase1_request(&wrong_kind), Err(Rejection::Domain(DomainErrorCode::BrokenLineage)));

    let mut foreign_scope = facts();
    foreign_scope.artifact_scope_matches = false;
    foreign_scope.signal_run_id = "other".to_owned();
    assert_eq!(check_phase1_request(&foreign_scope), Err(Rejection::Application(denied)));

    let mut missing_fact = facts();
    missing_fact.data_snapshot.lineage.clear();
    assert_eq!(check_phase1_request(&missing_fact), Err(Rejection::Domain(DomainErrorCode::BrokenLineage)));

    let mut versioned = facts();
    versioned.run_universe_snapshot = LineageRef::new("universe".to_owned(), Some(1), Some(b"universe".to_vec()));
    assert_eq!(check_phase1_request(&versioned), Err(Rejection::Domain(DomainErrorCode::BrokenLineage)));

    let conflict = ApplicationError::new(ApplicationErrorCategory::ValidationFailed, false);
    let mut unscoped_key = facts();
    unscoped_key.idempotency_scoped = Err(conflict);
    assert_eq!(check_phase1_request(&unscoped_key), Err(Rejection::Application(conflict)));
}

#[test]
fn promoted_artifact_must_match_its_record() {
    assert_eq!(check_artifact_verified(&[1, 2], 10, &[1, 2], 10), Ok(()));
    assert_eq!(check_artifact_verified(&[1, 2], 10, &[1, 3], 11), Err(Rejection::Domain(DomainErrorCode::ContentHashMismatch)));
    assert_eq!(
        check_artifact_verified(&[1, 2], 10, &[1, 2], 11),
        Err(Rejection::Application(ApplicationError::new(ApplicationErrorCategory::ValidationFailed, false)))
    );
}

#[test]
fn phase1_journal_runs_from_creation_to_success() {
    let plan = plan_phase1_journal(b"run-1", &[0xaa], &[0xbb]);
    let seen: Vec<(u64, JournalEventType, Vec<u8>)> = plan.into_iter().map(|e| (e.sequence, e.event_type, e.payload)).collect();
    assert_eq!(
        seen,
        vec![
            (1, JournalEventType::RunCreated, b"run-1".to_vec()),
            (2, JournalEventType::RunStarted, b"run-1".to_vec()),
            (3, JournalEventType::ArtifactPublished, vec![0xaa]),
            (4, JournalEventType::SignalSetPublished, vec![0xbb]),
            (5, JournalEventType::RunSucceeded, b"run-1".to_vec()),
        ]
    );
}
