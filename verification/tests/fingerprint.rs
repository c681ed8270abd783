use sha2::Digest;
use ficant_application::decimal::UnitRef;
use ficant_application::aggregation::{
    FactorDv01, PortfolioBondMetricFacts, PortfolioCoverageReason as Reason, PortfolioMetricDataMode as Mode,
    PortfolioMetricOutputScales, PortfolioMetricPosition, PortfolioWeightedMetricEligibility,
    PortfolioWeightedMetricUnits, aggregate_portfolio_metrics,
};
use ficant_application::decimal::{DecimalValue, FixedDecimal};
use ficant_application::overview_draft::{assemble_overview_draft, resolved_staleness};
use ficant_application::overview_payload::overview_payload_bytes;
use ficant_application::evidence::{
    CatalogDefinitionRecord, CatalogObjectRef, ExactPortfolioScopeKind, PortfolioCatalogEvidenceBinding,
    PortfolioCatalogEvidenceRole as Role, PortfolioContextTimes,
};
use ficant_application::fingerprint::{AggregationRequestContext, aggregation_request_fingerprint};
use ficant_application::risk_analysis::{PortfolioRiskNamedEvidenceBinding, PortfolioRiskNamedEvidenceKind};
use ficant_application::overview::PositionSnapshotBinding;
use ficant_application::primitives::{Instant, LineageRef, LocalDate, MarketTime, OwnerRef, VersionRef};
use ficant_application::resolution::{
    AggregationContextPins, ExactPortfolioScope, ResolvedBenchmark, ResolvedConvention, ResolvedPortfolio,
    ResolvedPortfolioAggregationInputs,
};
use ficant_application::workbench::{PortfolioCurrencyMode, PortfolioLookThroughMode, PortfolioPeriodPreset};

fn time(seconds: i64) -> MarketTime {
    MarketTime { instant: Instant { seconds, nanos: 7 }, market_timezone: "Asia/Shanghai".to_owned(), local_trading_date: LocalDate { year: 2025, month: 3, day: 14 } }
}

fn owner() -> OwnerRef {
    OwnerRef::new("tenant".to_owned(), "owner".to_owned())
}

fn record(id: &str) -> CatalogDefinitionRecord {
    CatalogDefinitionRecord { reference: VersionRef::new(id.to_owned(), 2), content_hash: id.as_bytes().to_vec(), visible_at: time(50), effective_from: time(10), effective_to: time(1_000) }
}

fn snapshot(id: &str) -> PositionSnapshotBinding {
    PositionSnapshotBinding { snapshot_id: id.to_owned(), content_hash: id.as_bytes().to_vec(), observed_at: time(100), visible_at: time(150) }
}

fn pin(id: &str) -> CatalogObjectRef {
    CatalogObjectRef { reference: VersionRef::new(id.to_owned(), 2), content_hash: id.as_bytes().to_vec() }
}

fn context() -> AggregationRequestContext {
    AggregationRequestContext {
        pins: AggregationContextPins {
            times: PortfolioContextTimes { owner: owner(), subject_ref: VersionRef::new("subject".to_owned(), 3), valuation_at: time(100), knowledge_at: time(200) },
            scope: ExactPortfolioScope {
                selected: ExactPortfolioScopeKind::Book(LineageRef::new("book".to_owned(), Some(4), Some(b"book".to_vec()))),
                member_portfolios: vec![LineageRef::new("p1".to_owned(), None, None)],
            },
            benchmark: pin("bench"),
            metric_convention: pin("conv"),
        },
        currency: PortfolioCurrencyMode::Cny,
        currency_unit: UnitRef::new("cny".to_owned(), 5),
        look_through: PortfolioLookThroughMode::Separate,
        period: PortfolioPeriodPreset::YearToDate,
        period_from: time(-20),
        period_to: time(100),
    }
}

fn resolved() -> ResolvedPortfolioAggregationInputs {
    ResolvedPortfolioAggregationInputs {
        exact_scope: context().pins.scope,
        portfolios: vec![ResolvedPortfolio { record: record("p1"), owner: owner(), subject_ref: VersionRef::new("subject".to_owned(), 3), benchmark: pin("bench"), metric_convention: pin("conv"), position_snapshot: snapshot("s1") }],
        benchmark: ResolvedBenchmark { record: record("bench"), owner: owner(), subject_ref: VersionRef::new("subject".to_owned(), 3), position_snapshot: snapshot("sb") },
        benchmark_snapshot: snapshot("sb"),
        convention: ResolvedConvention { record: record("conv"), owner: owner() },
        catalog_evidence: vec![PortfolioCatalogEvidenceBinding {
            role: Role::Benchmark,
            reference: VersionRef::new("bench".to_owned(), 2),
            content_hash: b"bench".to_vec(),
            visible_at: time(50),
            effective_from: time(10),
            effective_to: time(1_000),
        }],
    }
}

fn risk_inputs() -> Vec<Vec<PortfolioRiskNamedEvidenceBinding>> {
    vec![vec![PortfolioRiskNamedEvidenceBinding {
        kind: PortfolioRiskNamedEvidenceKind::CurveNodeDefinition,
        identity: "node".to_owned(),
        content_hash: b"node-hash".to_vec(),
        observed_at: None,
        visible_at: Some(time(60)),
        effective_from: None,
        effective_to: None,
    }]]
}

fn field(out: &mut Vec<u8>, value: &[u8]) {
    out.extend_from_slice(&(value.len() as u64).to_be_bytes());
    out.extend_from_slice(value);
}

fn time_field(out: &mut Vec<u8>, seconds: i64) {
    field(out, &seconds.to_be_bytes());
    field(out, &7u32.to_be_bytes());
    field(out, b"Asia/Shanghai");
    field(out, b"2025-03-14");
}

fn expected_encoding() -> Vec<u8> {
    let mut out = Vec::new();
    field(&mut out, b"ficant.portfolio-overview-request.v1");
    field(&mut out, b"tenant");
    field(&mut out, b"owner");
    field(&mut out, b"subject");
    field(&mut out, &3u64.to_be_bytes());
    field(&mut out, &sha2::Sha256::digest(b"subject-ref-version-only"));
    field(&mut out, &[1]);
    field(&mut out, b"book");
    field(&mut out, &4u64.to_be_bytes());
    field(&mut out, b"book");
    field(&mut out, b"p1");
    field(&mut out, &0u64.to_be_bytes());
    field(&mut out, b"");
    time_field(&mut out, 100);
    time_field(&mut out, 200);
    field(&mut out, &[2]);
    field(&mut out, b"cny");
    field(&mut out, &5u64.to_be_bytes());
    field(&mut out, &[3]);
    field(&mut out, &[4]);
    time_field(&mut out, -20);
    time_field(&mut out, 100);
    field(&mut out, b"bench");
    field(&mut out, b"conv");
    field(&mut out, b"p1");
    field(&mut out, b"s1");
    field(&mut out, b"s1");
    time_field(&mut out, 100);
    time_field(&mut out, 150);
    field(&mut out, b"bench");
    field(&mut out, b"sb");
    field(&mut out, b"sb");
    time_field(&mut out, 100);
    time_field(&mut out, 150);
    field(&mut out, b"conv");
    field(&mut out, &[4]);
    field(&mut out, b"bench");
    field(&mut out, &2u64.to_be_bytes());
    field(&mut out, b"bench");
    time_field(&mut out, 50);
    time_field(&mut out, 10);
    time_field(&mut out, 1_000);
    field(&mut out, b"analytics-one");
    field(&mut out, &[1]);
    field(&mut out, b"node");
    field(&mut out, b"node-hash");
    field(&mut out, &[0]);
    field(&mut out, &[1]);
    time_field(&mut out, 60);
    field(&mut out, &[0]);
    field(&mut out, &[0]);
    out
}

#[test]
fn request_fingerprint_digests_the_canonical_request_encoding() {
    let fingerprint = aggregation_request_fingerprint(&context(), &resolved(), &[b"analytics-one".to_vec()], &risk_inputs());
    assert_eq!(fingerprint, sha2::Sha256::digest(&expected_encoding()).to_vec());
}

#[test]
fn request_fingerprint_changes_with_any_bound_field() {
    let base = aggregation_request_fingerprint(&context(), &resolved(), &[b"analytics-one".to_vec()], &risk_inputs());
    let mut other_period = context();
    other_period.period = PortfolioPeriodPreset::OneYear;
    assert_ne!(aggregation_request_fingerprint(&other_period, &resolved(), &[b"analytics-one".to_vec()], &risk_inputs()), base);
    let mut later_snapshot = resolved();
    later_snapshot.benchmark_snapshot.visible_at = time(151);
    assert_ne!(aggregation_request_fingerprint(&context(), &later_snapshot, &[b"analytics-one".to_vec()], &risk_inputs()), base);
    assert_ne!(aggregation_request_fingerprint(&context(), &resolved(), &[], &risk_inputs()), base);
    assert_ne!(aggregation_request_fingerprint(&context(), &resolved(), &[b"analytics-one".to_vec()], &[]), base);
    assert_eq!(aggregation_request_fingerprint(&context(), &resolved(), &[b"analytics-one".to_vec()], &risk_inputs()), base);
}

fn factor(id: &str, unit_version: u64) -> ficant_application::aggregation::FactorDv01 {
    ficant_application::aggregation::FactorDv01 {
        factor_id: id.to_owned(),
        factor_definition_hash: format!("{id}-def").into_bytes(),
        value: ficant_application::decimal::FixedDecimal::from_scaled(5),
        unit: UnitRef::new("dv01".to_owned(), unit_version),
    }
}

#[test]
fn implementation_identities_digest_their_encodings() {
    let convention = pin("conv");
    let mut expected = Vec::new();
    field(&mut expected, b"ficant.portfolio.aggregation.v1");
    field(&mut expected, b"conv");
    field(&mut expected, &2u64.to_be_bytes());
    field(&mut expected, b"conv");
    assert_eq!(
        ficant_application::fingerprint::portfolio_aggregation_implementation_digest(&convention),
        sha2::Sha256::digest(&expected).to_vec()
    );

    let factors = vec![factor("2y", 1), factor("10y", 3)];
    let mut topology = Vec::new();
    field(&mut topology, b"ficant.portfolio.factor-topology.v1");
    for (id, version) in [("2y", 1u64), ("10y", 3u64)] {
        field(&mut topology, id.as_bytes());
        field(&mut topology, format!("{id}-def").as_bytes());
        field(&mut topology, b"dv01");
        field(&mut topology, &version.to_be_bytes());
    }
    assert_eq!(
        ficant_application::fingerprint::factor_topology_digest(&factors).unwrap(),
        sha2::Sha256::digest(&topology).to_vec()
    );
    let repeated = vec![factor("2y", 1), factor("10y", 3), factor("2y", 2)];
    assert_eq!(
        ficant_application::fingerprint::factor_topology_digest(&repeated).unwrap_err().category(),
        ficant_application::error::ApplicationErrorCategory::HashMismatch
    );
}

#[test]
fn trace_token_is_the_hex_of_the_first_sixteen_fingerprint_bytes() {
    let fingerprint: Vec<u8> = (0u8..32).collect();
    assert_eq!(ficant_application::fingerprint::trace_from_fingerprint(&fingerprint), "000102030405060708090a0b0c0d0e0f");
}

fn aggregation() -> ficant_application::aggregation::PortfolioMetricAggregation {
    let one: i128 = 1_000_000_000_000;
    let unit = |id: &str| UnitRef::new(id.to_owned(), 1);
    let units = PortfolioWeightedMetricUnits::new(unit("rate"), unit("years"), unit("years2"), unit("rate"), unit("years"));
    let facts = PortfolioBondMetricFacts::new(
        FixedDecimal::from_scaled(one / 100),
        FixedDecimal::from_scaled(2 * one),
        FixedDecimal::from_scaled(10 * one),
        FixedDecimal::from_scaled(one / 50),
        FixedDecimal::from_scaled(5 * one),
        units,
    )
    .unwrap();
    let money = |amount: i128| DecimalValue::new(amount, 0, unit("cny")).unwrap();
    let position = PortfolioMetricPosition::from_totals(
        "a".to_owned(),
        money(100),
        money(0),
        FixedDecimal::from_scaled(100 * one),
        PortfolioWeightedMetricEligibility::Bond(Box::new(facts)),
    )
    .unwrap();
    let krd = vec![FactorDv01 { factor_id: "2y".to_owned(), factor_definition_hash: vec![1], value: FixedDecimal::from_scaled(one), unit: unit("dv01") }];
    aggregate_portfolio_metrics(&[position], &krd, PortfolioMetricOutputScales::new(2, 6, 4, 4, 2).unwrap()).unwrap()
}

#[test]
fn overview_draft_carries_its_request_coverage_and_mode() {
    let draft = assemble_overview_draft(
        context(),
        resolved(),
        aggregation(),
        aggregation(),
        &[Reason::PositionExcludedFromPortfolioRisk, Reason::ShortPositionExcludedFromWeightedAverages],
        2,
        3,
        false,
        &[b"analytics-one".to_vec()],
        &risk_inputs(),
        "details",
    );
    assert_eq!(draft.subject_ref, VersionRef::new("subject".to_owned(), 3));
    assert_eq!(draft.position_snapshots.len(), 1);
    assert_eq!(draft.position_snapshots[0].snapshot_id, "s1");
    assert_eq!(draft.basic_metrics.market_value.coefficient, 10_000);
    assert_eq!(draft.benchmark.reference, VersionRef::new("bench".to_owned(), 2));
    assert_eq!(draft.metric_convention.reference, VersionRef::new("conv".to_owned(), 2));
    assert_eq!(
        draft.missing_reasons,
        vec![
            Reason::ShortPositionExcludedFromWeightedAverages,
            Reason::PositionExcludedFromPortfolioRisk,
            Reason::BenchmarkPositionExcludedFromPortfolioRisk,
        ]
    );
    assert_eq!(draft.data_mode, Mode::Partial);
    assert_eq!(draft.request_fingerprint, sha2::Sha256::digest(&expected_encoding()).to_vec());
    assert_eq!(draft.details, "details");

    let clean = assemble_overview_draft(context(), resolved(), aggregation(), aggregation(), &[], 3, 3, true, &[b"analytics-one".to_vec()], &risk_inputs(), ());
    assert!(clean.missing_reasons.is_empty());
    assert_eq!(clean.data_mode, Mode::Stale);
    let real = assemble_overview_draft(context(), resolved(), aggregation(), aggregation(), &[], 3, 3, false, &[b"analytics-one".to_vec()], &risk_inputs(), ());
    assert_eq!(real.data_mode, Mode::Real);
}

#[test]
fn overview_staleness_covers_every_member_and_the_benchmark_snapshot() {
    let at = |seconds: i64| Instant { seconds, nanos: 7 };
    assert_eq!(resolved_staleness(&resolved(), at(130), 60), Ok(false));
    assert_eq!(resolved_staleness(&resolved(), at(170), 60), Ok(true));
    let mut old_benchmark = resolved();
    old_benchmark.benchmark_snapshot.observed_at = time(40);
    assert_eq!(resolved_staleness(&old_benchmark, at(130), 60), Ok(true));
    assert_eq!(resolved_staleness(&resolved(), at(90), 60).unwrap_err().category(), ficant_application::error::ApplicationErrorCategory::HashMismatch);
}

fn contains_window(haystack: &[u8], needle: &[u8]) -> bool {
    haystack.windows(needle.len()).any(|window| window == needle)
}

#[test]
fn overview_payload_frames_the_draft_from_schema_to_data_mode() {
    let draft = assemble_overview_draft(
        context(),
        resolved(),
        aggregation(),
        aggregation(),
        &[Reason::PositionExcludedFromPortfolioRisk],
        3,
        3,
        false,
        &[b"analytics-one".to_vec()],
        &risk_inputs(),
        (),
    );
    let payload = overview_payload_bytes(&draft, b"participation", b"DETAILS");

    let mut head = Vec::new();
    field(&mut head, b"ficant.portfolio.v1.PortfolioOverview");
    field(&mut head, b"subject");
    field(&mut head, &3u64.to_be_bytes());
    assert!(payload.starts_with(&head));

    let mut market_value = Vec::new();
    field(&mut market_value, b"10000");
    field(&mut market_value, &2u32.to_be_bytes());
    field(&mut market_value, b"cny");
    field(&mut market_value, &1u64.to_be_bytes());
    assert!(contains_window(&payload, &market_value));

    let mut benchmark = Vec::new();
    field(&mut benchmark, b"bench");
    field(&mut benchmark, &2u64.to_be_bytes());
    field(&mut benchmark, b"bench");
    field(&mut benchmark, b"conv");
    field(&mut benchmark, &2u64.to_be_bytes());
    field(&mut benchmark, b"conv");
    field(&mut benchmark, b"participation");
    field(&mut benchmark, &[4]);
    benchmark.extend_from_slice(b"DETAILS");
    field(&mut benchmark, &draft.request_fingerprint);
    field(&mut benchmark, &[2]);
    assert!(payload.ends_with(&benchmark));
}
