use ficant_application::evidence::require_exact_lineage_set;
use ficant_application::error::ApplicationErrorCategory;
use ficant_application::evidence::{
    CatalogDefinitionRecord, CatalogObjectRef, CatalogTemporalScope, ExactPortfolioScopeKind,
    PortfolioCatalogEvidenceBinding, VisibleCatalogRecordFacts, catalog_record_evidence,
    PortfolioCatalogEvidenceRole as Role, PortfolioContextTimes, validate_catalog_evidence,
    validate_catalog_evidence_set, validate_normalized_catalog_evidence, validate_snapshot_binding,
    validate_visible_record,
};
use ficant_application::primitives::{Instant, LineageRef, LocalDate, MarketTime, OwnerRef, VersionRef};

fn time(seconds: i64) -> MarketTime {
    MarketTime { instant: Instant { seconds, nanos: 0 }, market_timezone: "UTC".to_owned(), local_trading_date: LocalDate { year: 2025, month: 1, day: 1 } }
}

fn owner() -> OwnerRef {
    OwnerRef::new("tenant".to_owned(), "owner".to_owned())
}

fn context() -> PortfolioContextTimes {
    PortfolioContextTimes { owner: owner(), subject_ref: VersionRef::new("subject".to_owned(), 1), valuation_at: time(100), knowledge_at: time(200) }
}

fn record(id: &str) -> CatalogDefinitionRecord {
    CatalogDefinitionRecord { reference: VersionRef::new(id.to_owned(), 1), content_hash: id.as_bytes().to_vec(), visible_at: time(50), effective_from: time(10), effective_to: time(1_000) }
}

fn binding(role: Role, record: &CatalogDefinitionRecord) -> PortfolioCatalogEvidenceBinding {
    PortfolioCatalogEvidenceBinding {
        role,
        reference: record.reference.clone(),
        content_hash: record.content_hash.clone(),
        visible_at: record.visible_at.clone(),
        effective_from: record.effective_from.clone(),
        effective_to: record.effective_to.clone(),
    }
}

fn scope() -> ExactPortfolioScopeKind {
    ExactPortfolioScopeKind::Group(LineageRef::new("group".to_owned(), Some(1), Some(b"group".to_vec())))
}

fn complete() -> (Vec<PortfolioCatalogEvidenceBinding>, Vec<CatalogDefinitionRecord>) {
    let portfolios = vec![record("p1"), record("p2")];
    let evidence = vec![
        binding(Role::MemberPortfolio, &portfolios[0]),
        binding(Role::SelectedGroup, &record("group")),
        binding(Role::Benchmark, &record("bench")),
        binding(Role::MemberPortfolio, &portfolios[1]),
        binding(Role::MetricConvention, &record("conv")),
    ];
    (evidence, portfolios)
}

fn check(evidence: &[PortfolioCatalogEvidenceBinding], portfolios: &[CatalogDefinitionRecord], scope: &ExactPortfolioScopeKind) -> bool {
    validate_catalog_evidence(&context(), scope, evidence, portfolios, &record("bench"), &record("conv")).is_ok()
}

#[test]
fn complete_catalog_evidence_is_accepted() {
    let (evidence, portfolios) = complete();
    assert!(check(&evidence, &portfolios, &scope()));
}

#[test]
fn incomplete_or_inexact_catalog_evidence_is_an_integrity_failure() {
    let (evidence, portfolios) = complete();
    let error = validate_catalog_evidence(&context(), &scope(), &evidence[1..], &portfolios, &record("bench"), &record("conv")).unwrap_err();
    assert_eq!(error.category(), ApplicationErrorCategory::HashMismatch);

    let book = ExactPortfolioScopeKind::Book(LineageRef::new("group".to_owned(), Some(1), Some(b"group".to_vec())));
    assert!(!check(&evidence, &portfolios, &book));

    let other_lineage = ExactPortfolioScopeKind::Group(LineageRef::new("group".to_owned(), Some(2), Some(b"group".to_vec())));
    assert!(!check(&evidence, &portfolios, &other_lineage));

    let swapped = vec![portfolios[1].clone(), portfolios[0].clone()];
    assert!(!check(&evidence, &swapped, &scope()));

    let mut extra = evidence.clone();
    extra.push(binding(Role::Benchmark, &record("bench")));
    assert!(!check(&extra, &portfolios, &scope()));

    let mut late = evidence.clone();
    late[2].visible_at = time(300);
    assert!(!check(&late, &portfolios, &scope()));
}

#[test]
fn records_must_be_in_effect_and_visible() {
    let ctx = context();
    assert!(validate_visible_record(&ctx, &owner(), None, &time(10), &time(101), &time(200)).is_ok());
    assert!(validate_visible_record(&ctx, &owner(), None, &time(10), &time(100), &time(200)).is_err());
    assert!(validate_visible_record(&ctx, &owner(), None, &time(101), &time(500), &time(200)).is_err());
    assert!(validate_visible_record(&ctx, &owner(), None, &time(10), &time(500), &time(201)).is_err());
    let other_subject = VersionRef::new("subject".to_owned(), 2);
    assert!(validate_visible_record(&ctx, &owner(), Some(&other_subject), &time(10), &time(500), &time(20)).is_err());
    let other_owner = OwnerRef::new("tenant".to_owned(), "else".to_owned());
    assert!(validate_visible_record(&ctx, &other_owner, None, &time(10), &time(500), &time(20)).is_err());
}

#[test]
fn snapshot_bindings_are_observed_at_valuation() {
    let ctx = context();
    assert!(validate_snapshot_binding(&ctx, &time(100), &time(150)).is_ok());
    assert!(validate_snapshot_binding(&ctx, &time(99), &time(150)).is_err());
    assert!(validate_snapshot_binding(&ctx, &time(100), &time(250)).is_err());
    let mut zoned = time(100);
    zoned.market_timezone = "Asia/Shanghai".to_owned();
    assert!(validate_snapshot_binding(&ctx, &zoned, &time(150)).is_err());
}

#[test]
fn lineage_sets_must_be_exact_and_strictly_ascending() {
    let exact = |id: &str, v: u64, h: &[u8]| LineageRef::new(id.to_owned(), Some(v), Some(h.to_vec()));
    assert!(require_exact_lineage_set(&[]).is_ok());
    assert!(require_exact_lineage_set(&[exact("a", 1, b"x"), exact("a", 2, b"a"), exact("b", 1, b"a")]).is_ok());
    assert!(require_exact_lineage_set(&[exact("a", 1, b"x"), exact("a", 1, b"y")]).is_ok());
    assert_eq!(require_exact_lineage_set(&[exact("a", 1, b"x"), exact("a", 1, b"x")]).unwrap_err().category(), ApplicationErrorCategory::LineageIncomplete);
    assert!(require_exact_lineage_set(&[exact("b", 1, b"x"), exact("a", 1, b"x")]).is_err());
    assert!(require_exact_lineage_set(&[LineageRef::new("a".to_owned(), None, Some(vec![1]))]).is_err());
    assert!(require_exact_lineage_set(&[LineageRef::new("a".to_owned(), Some(1), None)]).is_err());
}

fn pin(record: &CatalogDefinitionRecord) -> CatalogObjectRef {
    CatalogObjectRef { reference: record.reference.clone(), content_hash: record.content_hash.clone() }
}

fn member_lineages() -> Vec<LineageRef> {
    vec![LineageRef::new("p2".to_owned(), Some(1), Some(b"p2".to_vec())), LineageRef::new("p1".to_owned(), Some(1), Some(b"p1".to_vec()))]
}

fn check_set(evidence: &[PortfolioCatalogEvidenceBinding], lineages: &[LineageRef]) -> Result<(), ficant_application::error::ApplicationError> {
    let (_, portfolios) = complete();
    validate_catalog_evidence_set(&scope(), lineages, &pin(&record("bench")), &pin(&record("conv")), evidence, &portfolios, &record("bench"), &record("conv"))
}

#[test]
fn catalog_evidence_set_accepts_any_member_order() {
    let (mut evidence, _) = complete();
    assert!(check_set(&evidence, &member_lineages()).is_ok());
    evidence.swap(0, 3);
    assert!(check_set(&evidence, &member_lineages()).is_ok());
}

#[test]
fn catalog_evidence_set_rejects_gaps_and_repeats() {
    let (evidence, _) = complete();
    let unknown = vec![LineageRef::new("p9".to_owned(), Some(1), Some(b"p9".to_vec())), member_lineages()[1].clone()];
    assert_eq!(check_set(&evidence, &unknown).unwrap_err().category(), ApplicationErrorCategory::HashMismatch);
    let mut repeated = evidence.clone();
    repeated[3] = repeated[0].clone();
    assert!(check_set(&repeated, &member_lineages()).is_err());
    let mut foreign = evidence.clone();
    foreign[2] = binding(Role::Benchmark, &record("other"));
    assert!(check_set(&foreign, &member_lineages()).is_err());
    assert!(check_set(&evidence[..4], &member_lineages()).is_err());
}

#[test]
fn catalog_records_bind_as_evidence_only_inside_their_frame() {
    let temporal = CatalogTemporalScope { owner: owner(), subject_ref: VersionRef::new("subject".to_owned(), 1), as_of: time(100), knowledge_at: time(200) };
    let facts = VisibleCatalogRecordFacts { owner: owner(), subject_ref: Some(VersionRef::new("subject".to_owned(), 1)), definition: record("p1") };
    let bound = catalog_record_evidence(Role::MemberPortfolio, &facts, &temporal).unwrap();
    assert_eq!(bound, binding(Role::MemberPortfolio, &record("p1")));
    let other_subject = VisibleCatalogRecordFacts { subject_ref: Some(VersionRef::new("subject".to_owned(), 2)), ..facts.clone() };
    assert_eq!(catalog_record_evidence(Role::MemberPortfolio, &other_subject, &temporal).unwrap_err().category(), ApplicationErrorCategory::HashMismatch);
    let unsubjected = VisibleCatalogRecordFacts { subject_ref: None, ..facts.clone() };
    assert!(catalog_record_evidence(Role::MetricConvention, &unsubjected, &temporal).is_ok());
    let early = CatalogTemporalScope { as_of: time(5), ..temporal.clone() };
    assert!(catalog_record_evidence(Role::MemberPortfolio, &facts, &early).is_err());
    let blind = CatalogTemporalScope { knowledge_at: time(40), ..temporal };
    assert!(catalog_record_evidence(Role::MemberPortfolio, &facts, &blind).is_err());
}

#[test]
fn normalized_catalog_evidence_names_each_member_once() {
    let (evidence, _) = complete();
    let check = |evidence: &[PortfolioCatalogEvidenceBinding], lineages: &[LineageRef], knowledge: i64| {
        validate_normalized_catalog_evidence(&scope(), lineages, &pin(&record("bench")), &pin(&record("conv")), &time(100), &time(knowledge), evidence)
    };
    assert!(check(&evidence, &member_lineages(), 200).is_ok());
    assert_eq!(check(&evidence, &member_lineages(), 40).unwrap_err().category(), ApplicationErrorCategory::HashMismatch);
    let twice = vec![member_lineages()[0].clone(), member_lineages()[0].clone()];
    assert!(check(&evidence, &twice, 200).is_ok());
    let mut doubled = evidence.clone();
    doubled[3] = doubled[0].clone();
    assert!(check(&doubled, &member_lineages(), 200).is_err());
    let mut moved = evidence.clone();
    moved[2] = binding(Role::Benchmark, &record("other"));
    assert!(check(&moved, &member_lineages(), 200).is_err());
}
