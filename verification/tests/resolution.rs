use ficant_application::error::{ApplicationError, ApplicationErrorCategory};
use ficant_application::evidence::{
    CatalogDefinitionRecord, CatalogObjectRef, ExactPortfolioScopeKind, PortfolioCatalogEvidenceBinding,
    PortfolioCatalogEvidenceRole as Role, PortfolioContextTimes,
};
use ficant_application::overview::PositionSnapshotBinding;
use ficant_application::primitives::{Instant, LineageRef, LocalDate, MarketTime, OwnerRef, VersionRef};
use ficant_application::resolution::{
    AggregationContextPins, ExactPortfolioScope, ResolvedBenchmark, ResolvedConvention, ResolvedPortfolio,
    ResolvedPortfolioAggregationInputs, validate_resolved_inputs,
};

fn time(seconds: i64) -> MarketTime {
    MarketTime { instant: Instant { seconds, nanos: 0 }, market_timezone: "UTC".to_owned(), local_trading_date: LocalDate { year: 2025, month: 1, day: 1 } }
}

fn owner() -> OwnerRef {
    OwnerRef::new("tenant".to_owned(), "owner".to_owned())
}

fn subject() -> VersionRef {
    VersionRef::new("subject".to_owned(), 1)
}

fn record(id: &str) -> CatalogDefinitionRecord {
    CatalogDefinitionRecord { reference: VersionRef::new(id.to_owned(), 1), content_hash: id.as_bytes().to_vec(), visible_at: time(50), effective_from: time(10), effective_to: time(1_000) }
}

fn pin(id: &str) -> CatalogObjectRef {
    CatalogObjectRef { reference: VersionRef::new(id.to_owned(), 1), content_hash: id.as_bytes().to_vec() }
}

fn exact(id: &str) -> LineageRef {
    LineageRef::new(id.to_owned(), Some(1), Some(id.as_bytes().to_vec()))
}

fn snapshot(id: &str) -> PositionSnapshotBinding {
    PositionSnapshotBinding { snapshot_id: id.to_owned(), content_hash: id.as_bytes().to_vec(), observed_at: time(100), visible_at: time(150) }
}

fn binding(role: Role, record: &CatalogDefinitionRecord) -> PortfolioCatalogEvidenceBinding {
    PortfolioCatalogEvidenceBinding {
        role,
        reference: record.reference.clone(),
        content_hash: record.content_hash.clone(),
        visible_at: record.visible_at.clone(),
        effective_from: record.effective_from.clone(),
        effective_to: record.effective_to.clone(),
    }
}

fn scope() -> ExactPortfolioScope {
    ExactPortfolioScope { selected: ExactPortfolioScopeKind::Group(exact("group")), member_portfolios: vec![exact("p1"), exact("p2")] }
}

fn pins() -> AggregationContextPins {
    AggregationContextPins {
        times: PortfolioContextTimes { owner: owner(), subject_ref: subject(), valuation_at: time(100), knowledge_at: time(200) },
        scope: scope(),
        benchmark: pin("bench"),
        metric_convention: pin("conv"),
    }
}

fn member(id: &str) -> ResolvedPortfolio {
    ResolvedPortfolio { record: record(id), owner: owner(), subject_ref: subject(), benchmark: pin("bench"), metric_convention: pin("conv"), position_snapshot: snapshot(id) }
}

fn resolved() -> ResolvedPortfolioAggregationInputs {
    ResolvedPortfolioAggregationInputs {
        exact_scope: scope(),
        portfolios: vec![member("p1"), member("p2")],
        benchmark: ResolvedBenchmark { record: record("bench"), owner: owner(), subject_ref: subject(), position_snapshot: snapshot("bench") },
        benchmark_snapshot: snapshot("bench"),
        convention: ResolvedConvention { record: record("conv"), owner: owner() },
        catalog_evidence: vec![
            binding(Role::SelectedGroup, &record("group")),
            binding(Role::MemberPortfolio, &record("p1")),
            binding(Role::MemberPortfolio, &record("p2")),
            binding(Role::Benchmark, &record("bench")),
            binding(Role::MetricConvention, &record("conv")),
        ],
    }
}

fn category(result: Result<(), ApplicationError>) -> ApplicationErrorCategory {
    result.unwrap_err().category()
}

#[test]
fn exact_resolution_is_accepted() {
    assert!(validate_resolved_inputs(Ok(()), &pins(), &resolved()).is_ok());
}

#[test]
fn scope_or_pin_drift_fails_before_authorization() {
    let forbidden = Err(ApplicationError::new(ApplicationErrorCategory::Forbidden, false));
    let mut drifted = resolved();
    drifted.exact_scope.member_portfolios.pop();
    assert_eq!(category(validate_resolved_inputs(forbidden, &pins(), &drifted)), ApplicationErrorCategory::HashMismatch);

    let mut other_convention = resolved();
    other_convention.convention.record = record("other");
    assert_eq!(category(validate_resolved_inputs(Ok(()), &pins(), &other_convention)), ApplicationErrorCategory::HashMismatch);

    let mut empty = resolved();
    empty.portfolios.clear();
    assert_eq!(category(validate_resolved_inputs(Ok(()), &pins(), &empty)), ApplicationErrorCategory::HashMismatch);
}

#[test]
fn unauthorized_owner_gets_the_authorization_error() {
    let forbidden = Err(ApplicationError::new(ApplicationErrorCategory::Forbidden, false));
    assert_eq!(category(validate_resolved_inputs(forbidden, &pins(), &resolved())), ApplicationErrorCategory::Forbidden);
}

#[test]
fn member_drift_is_an_integrity_failure() {
    let mut reordered = resolved();
    reordered.portfolios.swap(0, 1);
    assert_eq!(category(validate_resolved_inputs(Ok(()), &pins(), &reordered)), ApplicationErrorCategory::HashMismatch);

    let mut foreign = resolved();
    foreign.portfolios[1].owner = OwnerRef::new("tenant".to_owned(), "other".to_owned());
    assert_eq!(category(validate_resolved_inputs(Ok(()), &pins(), &foreign)), ApplicationErrorCategory::HashMismatch);

    let mut late = resolved();
    late.portfolios[0].position_snapshot.observed_at = time(99);
    assert_eq!(category(validate_resolved_inputs(Ok(()), &pins(), &late)), ApplicationErrorCategory::HashMismatch);

    let mut other_benchmark = resolved();
    other_benchmark.portfolios[0].benchmark = pin("elsewhere");
    assert_eq!(category(validate_resolved_inputs(Ok(()), &pins(), &other_benchmark)), ApplicationErrorCategory::HashMismatch);
}

#[test]
fn incomplete_catalog_evidence_is_an_integrity_failure() {
    let mut missing = resolved();
    missing.catalog_evidence.remove(2);
    assert_eq!(category(validate_resolved_inputs(Ok(()), &pins(), &missing)), ApplicationErrorCategory::HashMismatch);

    let mut late_snapshot = resolved();
    late_snapshot.benchmark_snapshot.visible_at = time(300);
    late_snapshot.benchmark.position_snapshot.visible_at = time(300);
    assert_eq!(category(validate_resolved_inputs(Ok(()), &pins(), &late_snapshot)), ApplicationErrorCategory::HashMismatch);
}
