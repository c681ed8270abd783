use ficant_application::aggregation::{
    FactorDv01, PortfolioCoverageReason as Reason, PortfolioMetricDataMode as Mode,
    PortfolioRatesUnitRole as Role,
};
use ficant_application::decimal::{FixedDecimal, UnitRef};
use ficant_application::error::ApplicationErrorCategory;
use ficant_application::overview::{
    NormalizedPortfolioContext, PortfolioAnalyticsEvidenceBinding,
    PortfolioAnalyticsEvidenceKind as Kind, PortfolioBondRatesAuthority,
    PortfolioBondRatesAuthorityResolution as Resolution, PortfolioRatesUnitAuthority,
    PositionSnapshotBinding, PositionSnapshotFacts, PositionViewsFacts,
    ResolvedPortfolioAnalyticsAuthority, SnapshotPosition, authority_unit, is_stale,
    metric_output_scales, overview_data_mode, portfolio_result_units, sort_dedup_reasons,
    validate_analytics_authority, validate_normalized_context, validate_position_snapshot,
    validate_risk, validate_views,
};
use ficant_application::primitives::{Instant, LineageRef, LocalDate, MarketTime, OwnerRef, VersionRef};

const ROLES: [(Role, &str); 9] = [
    (Role::CurrencyAmount, "currency_amount"),
    (Role::PricePer100, "price_per_100"),
    (Role::Rate, "rate"),
    (Role::Years, "years"),
    (Role::YearsSquared, "years_squared"),
    (Role::Dv01Per100, "dv01_per_100"),
    (Role::Dv01, "dv01"),
    (Role::Dimensionless, "dimensionless"),
    (Role::ContractCount, "contract_count"),
];

fn units() -> Vec<PortfolioRatesUnitAuthority> {
    ROLES
        .iter()
        .enumerate()
        .map(|(index, (role, dimension))| PortfolioRatesUnitAuthority {
            role: *role,
            reference: UnitRef::new(format!("unit-{dimension}"), 1),
            dimension: (*dimension).to_owned(),
            scale: 2 + index as u32,
        })
        .collect()
}

fn time(seconds: i64) -> MarketTime {
    MarketTime { instant: Instant { seconds, nanos: 0 }, market_timezone: "UTC".to_owned(), local_trading_date: LocalDate { year: 2025, month: 1, day: 1 } }
}

fn owner() -> OwnerRef {
    OwnerRef::new("tenant".to_owned(), "owner".to_owned())
}

fn member(id: &str) -> LineageRef {
    LineageRef::new(id.to_owned(), Some(1), Some(id.as_bytes().to_vec()))
}

fn context() -> NormalizedPortfolioContext {
    NormalizedPortfolioContext {
        owner: owner(),
        subject_ref: VersionRef::new("subject".to_owned(), 1),
        valuation_at: time(1_000),
        knowledge_at: time(2_000),
        period_from: time(500),
        period_to: time(1_000),
        member_portfolios: vec![member("a"), member("b")],
        currency_unit: UnitRef::new("unit-currency_amount".to_owned(), 1),
    }
}

#[test]
fn result_units_freeze_each_role_once() {
    let bindings = portfolio_result_units(&units()).unwrap();
    assert_eq!(bindings.dv01().reference.unit_id, "unit-dv01");
    assert_eq!(bindings.rate().expected_dimension, "rate");
    let mut repeated = units();
    repeated[8].role = Role::Rate;
    repeated[8].dimension = "rate".to_owned();
    assert_eq!(portfolio_result_units(&repeated).unwrap_err().category(), ApplicationErrorCategory::ValidationFailed);
    let mut wide = units();
    wide[0].scale = 29;
    assert!(portfolio_result_units(&wide).is_err());
    let mut wrong = units();
    wrong[2].dimension = "years".to_owned();
    assert!(portfolio_result_units(&wrong).is_err());
    assert!(portfolio_result_units(&units()[..8]).is_err());
}

#[test]
fn authority_unit_picks_the_sole_entry_of_a_role() {
    let values = units();
    assert_eq!(authority_unit(&values, Role::Years).unwrap().scale, 5);
    let mut doubled = units();
    doubled.push(doubled[3].clone());
    assert!(authority_unit(&doubled, Role::Years).is_err());
    assert!(authority_unit(&doubled, Role::Rate).is_ok());
    assert!(authority_unit(&values[..2], Role::Dv01).is_err());
}

#[test]
fn output_scales_come_from_the_shared_authority_units() {
    let scales = metric_output_scales(&context(), &[units(), units()]).unwrap();
    assert_eq!((scales.money(), scales.rate(), scales.years(), scales.years_squared(), scales.dv01()), (2, 4, 5, 6, 8));
    assert_eq!(metric_output_scales(&context(), &[]).unwrap_err().category(), ApplicationErrorCategory::HashMismatch);
    let mut other = units();
    other[1].scale = 9;
    assert_eq!(metric_output_scales(&context(), &[units(), other]).unwrap_err().category(), ApplicationErrorCategory::ValidationFailed);
    let mut foreign = context();
    foreign.currency_unit = UnitRef::new("usd".to_owned(), 1);
    assert_eq!(metric_output_scales(&foreign, &[units()]).unwrap_err().category(), ApplicationErrorCategory::ValidationFailed);
}

#[test]
fn normalized_context_frame_is_checked() {
    assert!(validate_normalized_context(&context()).is_ok());
    let mut early = context();
    early.knowledge_at = time(999);
    assert_eq!(validate_normalized_context(&early).unwrap_err().category(), ApplicationErrorCategory::ValidationFailed);
    let mut reversed = context();
    reversed.period_from = time(1_001);
    assert_eq!(validate_normalized_context(&reversed).unwrap_err().category(), ApplicationErrorCategory::ValidationFailed);
    let mut detached = context();
    detached.period_to = time(999);
    assert!(validate_normalized_context(&detached).is_err());
    let mut empty = context();
    empty.member_portfolios.clear();
    assert_eq!(validate_normalized_context(&empty).unwrap_err().category(), ApplicationErrorCategory::ValidationFailed);
    let mut unordered = context();
    unordered.member_portfolios.reverse();
    assert_eq!(validate_normalized_context(&unordered).unwrap_err().category(), ApplicationErrorCategory::LineageIncomplete);
}

#[test]
fn staleness_compares_whole_seconds_of_age_with_the_limit() {
    let at = |seconds: i64, nanos: u32| Instant { seconds, nanos };
    assert_eq!(is_stale(at(100, 0), at(40, 0), 60), Ok(false));
    assert_eq!(is_stale(at(100, 999_999_999), at(40, 0), 60), Ok(false));
    assert_eq!(is_stale(at(101, 0), at(40, 0), 60), Ok(true));
    assert_eq!(is_stale(at(40, 0), at(40, 1), 60).unwrap_err().category(), ApplicationErrorCategory::HashMismatch);
    assert_eq!(is_stale(at(100, 0), at(40, 0), u64::MAX).unwrap_err().category(), ApplicationErrorCategory::ValidationFailed);
}

#[test]
fn coverage_reasons_are_sorted_once_each_and_decide_the_data_mode() {
    let sorted = sort_dedup_reasons(&[
        Reason::BenchmarkPositionExcludedFromPortfolioRisk,
        Reason::ShortPositionExcludedFromWeightedAverages,
        Reason::BenchmarkPositionExcludedFromPortfolioRisk,
        Reason::NonBondExcludedFromWeightedAverages,
    ]);
    assert_eq!(sorted, vec![
        Reason::ShortPositionExcludedFromWeightedAverages,
        Reason::NonBondExcludedFromWeightedAverages,
        Reason::BenchmarkPositionExcludedFromPortfolioRisk,
    ]);
    assert_eq!(overview_data_mode(&sorted, Mode::Real, Mode::Real, false), Mode::Partial);
    assert_eq!(overview_data_mode(&[], Mode::Real, Mode::Partial, true), Mode::Partial);
    assert_eq!(overview_data_mode(&[], Mode::Real, Mode::Real, true), Mode::Stale);
    assert_eq!(overview_data_mode(&[], Mode::Stale, Mode::Real, false), Mode::Real);
}

fn snapshot() -> PositionSnapshotFacts {
    PositionSnapshotFacts {
        id: "snap".to_owned(),
        content_hash: b"snap-hash".to_vec(),
        owner: owner(),
        subject_ref: VersionRef::new("subject".to_owned(), 1),
        observed_at: time(1_000),
        visible_at: time(1_500),
        positions: vec![
            SnapshotPosition { id: "p1".to_owned(), instrument_ref: VersionRef::new("bond".to_owned(), 1) },
            SnapshotPosition { id: "p2".to_owned(), instrument_ref: VersionRef::new("swap".to_owned(), 1) },
        ],
    }
}

fn position_input() -> PortfolioAnalyticsEvidenceBinding {
    PortfolioAnalyticsEvidenceBinding {
        kind: Kind::PositionSnapshot,
        object_id: "snap".to_owned(),
        version: None,
        content_hash: b"snap-hash".to_vec(),
        observed_at: Some(time(1_000)),
        visible_at: Some(time(1_500)),
        effective_from: None,
        effective_to: None,
    }
}

fn authority() -> ResolvedPortfolioAnalyticsAuthority {
    ResolvedPortfolioAnalyticsAuthority {
        units: units(),
        bond_rates: vec![
            Resolution::Bond(PortfolioBondRatesAuthority {
                position_id: "p1".to_owned(),
                instrument_ref: VersionRef::new("bond".to_owned(), 1),
                currency_unit: UnitRef::new("unit-currency_amount".to_owned(), 1),
                rate_unit: UnitRef::new("unit-rate".to_owned(), 1),
                result_units: units(),
                remaining_years: FixedDecimal::from_scaled(5_000_000_000_000),
            }),
            Resolution::NonBond { position_id: "p2".to_owned(), instrument_ref: VersionRef::new("swap".to_owned(), 1) },
        ],
        risk_dv01_unit: UnitRef::new("unit-dv01".to_owned(), 1),
        evidence: vec![
            PortfolioAnalyticsEvidenceBinding {
                kind: Kind::CurveSnapshot,
                object_id: "curve".to_owned(),
                version: Some(1),
                content_hash: b"curve".to_vec(),
                observed_at: Some(time(900)),
                visible_at: Some(time(950)),
                effective_from: Some(time(0)),
                effective_to: Some(time(5_000)),
            },
            position_input(),
        ],
    }
}

#[test]
fn analytics_authority_must_fit_its_snapshot() {
    assert!(validate_analytics_authority(&context(), &snapshot(), &authority()).is_ok());
    let mut shuffled = authority();
    shuffled.bond_rates.reverse();
    assert_eq!(validate_analytics_authority(&context(), &snapshot(), &shuffled).unwrap_err().category(), ApplicationErrorCategory::HashMismatch);
    let mut no_units = authority();
    no_units.units.pop();
    assert_eq!(validate_analytics_authority(&context(), &snapshot(), &no_units).unwrap_err().category(), ApplicationErrorCategory::ValidationFailed);
    let mut twice = authority();
    twice.evidence.push(position_input());
    assert!(validate_analytics_authority(&context(), &snapshot(), &twice).is_err());
    let mut late = authority();
    late.evidence[0].visible_at = Some(time(2_001));
    assert!(validate_analytics_authority(&context(), &snapshot(), &late).is_err());
    let mut expired = authority();
    expired.evidence[0].effective_to = Some(time(1_000));
    assert!(validate_analytics_authority(&context(), &snapshot(), &expired).is_err());
    let mut drifted = authority();
    drifted.evidence[1].content_hash = b"other".to_vec();
    assert!(validate_analytics_authority(&context(), &snapshot(), &drifted).is_err());
    let mut matured = authority();
    if let Resolution::Bond(bond) = &mut matured.bond_rates[0] {
        bond.remaining_years = FixedDecimal::from_scaled(0);
    }
    assert!(validate_analytics_authority(&context(), &snapshot(), &matured).is_err());
    let mut dv01 = authority();
    dv01.risk_dv01_unit = UnitRef::new("unit-rate".to_owned(), 1);
    assert!(validate_analytics_authority(&context(), &snapshot(), &dv01).is_err());
}

#[test]
fn loaded_snapshots_views_and_risk_are_checked() {
    let binding = PositionSnapshotBinding { snapshot_id: "snap".to_owned(), content_hash: b"snap-hash".to_vec(), observed_at: time(1_000), visible_at: time(1_500) };
    assert!(validate_position_snapshot(&context(), &binding, &snapshot()).is_ok());
    let mut foreign = snapshot();
    foreign.owner = OwnerRef::new("tenant".to_owned(), "other".to_owned());
    assert_eq!(validate_position_snapshot(&context(), &binding, &foreign).unwrap_err().category(), ApplicationErrorCategory::HashMismatch);
    let views = PositionViewsFacts { snapshot_id: "snap".to_owned(), snapshot_content_hash: b"snap-hash".to_vec(), position_count: 2, imported_position_count: 2 };
    assert!(validate_views(&snapshot(), &views).is_ok());
    let short = PositionViewsFacts { position_count: 1, ..views };
    assert!(validate_views(&snapshot(), &short).is_err());
    let totals = vec![FactorDv01 { factor_id: "1Y".to_owned(), factor_definition_hash: vec![1], value: FixedDecimal::from_scaled(1), unit: UnitRef::new("unit-dv01".to_owned(), 1) }];
    assert!(validate_risk(&snapshot(), &"snap".to_owned(), &totals).is_ok());
    assert!(validate_risk(&snapshot(), &"snap".to_owned(), &[]).is_err());
    assert!(validate_risk(&snapshot(), &"other".to_owned(), &totals).is_err());
}

#[test]
fn staleness_persists_as_knowledge_advances_and_sorting_is_idempotent() {
    let observed = Instant { seconds: 40, nanos: 500 };
    assert_eq!(is_stale(Instant { seconds: 101, nanos: 500 }, observed, 60), Ok(true));
    assert_eq!(is_stale(Instant { seconds: 5_000, nanos: 0 }, observed, 60), Ok(true));
    let once = sort_dedup_reasons(&[Reason::PositionExcludedFromPortfolioRisk, Reason::NonBondExcludedFromWeightedAverages]);
    assert_eq!(sort_dedup_reasons(&once), once);
}

#[test]
fn scope_positions_may_not_repeat_across_members() {
    let ids = |values: &[&str]| values.iter().map(|v| (*v).to_owned()).collect::<Vec<String>>();
    assert!(ficant_application::overview::check_scope_positions_unique(&ids(&["a", "b"]), &ids(&["a", "b", "c"])).is_ok());
    assert_eq!(
        ficant_application::overview::check_scope_positions_unique(&ids(&["a", "b", "a"]), &ids(&["a"])).unwrap_err().category(),
        ApplicationErrorCategory::LineageIncomplete
    );
    assert_eq!(
        ficant_application::overview::check_scope_positions_unique(&ids(&["a"]), &ids(&["c", "c"])).unwrap_err().category(),
        ApplicationErrorCategory::LineageIncomplete
    );
}

#[test]
fn benchmark_risk_gap_adds_its_coverage_reason() {
    let reasons = ficant_application::overview::overview_coverage_reasons(&[Reason::NonBondExcludedFromWeightedAverages, Reason::ShortPositionExcludedFromWeightedAverages], 3, 4);
    assert_eq!(
        reasons,
        vec![
            Reason::ShortPositionExcludedFromWeightedAverages,
            Reason::NonBondExcludedFromWeightedAverages,
            Reason::BenchmarkPositionExcludedFromPortfolioRisk,
        ]
    );
    assert_eq!(ficant_application::overview::overview_coverage_reasons(&[], 4, 4), Vec::<Reason>::new());
}

#[test]
fn an_overview_is_stale_when_any_member_or_the_benchmark_snapshot_is() {
    let at = |s: i64| Instant { seconds: s, nanos: 0 };
    let staleness = ficant_application::overview::overview_staleness;
    assert_eq!(staleness(at(1_000), &[at(990), at(995), at(999)], 60), Ok(false));
    assert_eq!(staleness(at(1_000), &[at(990), at(995), at(900)], 60), Ok(true));
    assert_eq!(staleness(at(1_000), &[at(900), at(995)], 60), Ok(true));
    assert_eq!(staleness(at(1_000), &[], 60), Ok(false));
    assert_eq!(staleness(at(1_000), &[at(900), at(1_001)], 60).unwrap_err().category(), ApplicationErrorCategory::HashMismatch);
    assert_eq!(staleness(at(1_000), &[at(990)], u64::MAX).unwrap_err().category(), ApplicationErrorCategory::ValidationFailed);
}

#[test]
fn reported_reasons_come_in_ascending_order() {
    let reasons = ficant_application::overview::overview_coverage_reasons(
        &[
            Reason::PositionExcludedFromPortfolioRisk,
            Reason::ShortPositionExcludedFromWeightedAverages,
            Reason::PositionExcludedFromPortfolioRisk,
            Reason::NonBondExcludedFromWeightedAverages,
        ],
        2,
        3,
    );
    assert_eq!(
        reasons,
        vec![
            Reason::ShortPositionExcludedFromWeightedAverages,
            Reason::NonBondExcludedFromWeightedAverages,
            Reason::PositionExcludedFromPortfolioRisk,
            Reason::BenchmarkPositionExcludedFromPortfolioRisk,
        ]
    );
}
