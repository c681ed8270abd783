use ficant_application::aggregation::PortfolioRatesUnitRole as Role;
use ficant_application::bond_analysis::{BondAnalysisDecision, analyze_decision, check_materialized_input};
use ficant_application::decimal::{DecimalValue, FixedDecimal, UnitRef};
use ficant_application::error::ApplicationErrorCategory;
use ficant_application::overview::{
    PortfolioBondRatesAuthority, PortfolioBondRatesAuthorityResolution as Resolution, PortfolioRatesUnitAuthority,
    SnapshotPosition,
};
use ficant_application::primitives::{Instant, LocalDate, MarketTime, OwnerRef, VersionRef};

const ROLES: [(Role, &str); 9] = [
    (Role::CurrencyAmount, "currency_amount"),
    (Role::PricePer100, "price_per_100"),
    (Role::Rate, "rate"),
    (Role::Years, "years"),
    (Role::YearsSquared, "years_squared"),
    (Role::Dv01Per100, "dv01_per_100"),
    (Role::Dv01, "dv01"),
    (Role::Dimensionless, "dimensionless"),
    (Role::ContractCount, "contract_count"),
];

fn units() -> Vec<PortfolioRatesUnitAuthority> {
    ROLES
        .iter()
        .map(|(role, dimension)| PortfolioRatesUnitAuthority { role: *role, reference: UnitRef::new(format!("unit-{dimension}"), 1), dimension: (*dimension).to_owned(), scale: 4 })
        .collect()
}

fn position() -> SnapshotPosition {
    SnapshotPosition { id: "p1".to_owned(), instrument_ref: VersionRef::new("bond".to_owned(), 1) }
}

fn quantity(coefficient: i128, scale: u32) -> DecimalValue {
    DecimalValue { coefficient, scale, unit: UnitRef::new("face".to_owned(), 1) }
}

fn bond(result_units: Vec<PortfolioRatesUnitAuthority>) -> Resolution {
    Resolution::Bond(PortfolioBondRatesAuthority {
        position_id: "p1".to_owned(),
        instrument_ref: VersionRef::new("bond".to_owned(), 1),
        currency_unit: UnitRef::new("unit-currency_amount".to_owned(), 1),
        rate_unit: UnitRef::new("unit-rate".to_owned(), 1),
        result_units,
        remaining_years: FixedDecimal::from_scaled(5_000_000_000_000),
    })
}

fn time(seconds: i64) -> MarketTime {
    MarketTime { instant: Instant { seconds, nanos: 0 }, market_timezone: "UTC".to_owned(), local_trading_date: LocalDate { year: 2025, month: 1, day: 1 } }
}

#[test]
fn non_bond_and_missing_metric_positions_are_settled_at_once() {
    let non_bond = Resolution::NonBond { position_id: "p1".to_owned(), instrument_ref: VersionRef::new("bond".to_owned(), 1) };
    match analyze_decision(&position(), &quantity(25, 1), &non_bond).unwrap() {
        BondAnalysisDecision::NonBond { signed_notional } => assert_eq!(signed_notional.scaled, 2_500_000_000_000),
        other => panic!("unexpected {other:?}"),
    }
    let missing = Resolution::Missing { position_id: "p1".to_owned(), instrument_ref: VersionRef::new("bond".to_owned(), 1) };
    assert!(matches!(analyze_decision(&position(), &quantity(-3, 0), &missing).unwrap(), BondAnalysisDecision::MissingBondMetric { signed_notional } if signed_notional.scaled == -3_000_000_000_000));
}

#[test]
fn bond_positions_are_analyzed_in_the_authority_units() {
    match analyze_decision(&position(), &quantity(100, 0), &bond(units())).unwrap() {
        BondAnalysisDecision::Analyze { units, .. } => {
            assert_eq!(units.ytm.unit_id, "unit-rate");
            assert_eq!(units.duration.unit_id, "unit-years");
            assert_eq!(units.convexity.unit_id, "unit-years_squared");
            assert_eq!(units.coupon_rate.unit_id, "unit-rate");
            assert_eq!(units.remaining_years.unit_id, "unit-years");
        }
        other => panic!("unexpected {other:?}"),
    }
    assert_eq!(analyze_decision(&position(), &quantity(100, 0), &bond(units()[..8].to_vec())).unwrap_err().category(), ApplicationErrorCategory::ValidationFailed);
}

#[test]
fn drift_between_position_and_authority_fails_closed() {
    let other = Resolution::NonBond { position_id: "p2".to_owned(), instrument_ref: VersionRef::new("bond".to_owned(), 1) };
    assert_eq!(analyze_decision(&position(), &quantity(1, 0), &other).unwrap_err().category(), ApplicationErrorCategory::HashMismatch);
    assert_eq!(analyze_decision(&position(), &quantity(1, 13), &other).unwrap_err().category(), ApplicationErrorCategory::ValidationFailed);

    let owner = OwnerRef::new("t".to_owned(), "o".to_owned());
    let bond_ref = VersionRef::new("bond".to_owned(), 1);
    assert!(check_materialized_input(&bond_ref, &owner, &time(1), &bond_ref, &owner, &time(1)).is_ok());
    assert_eq!(check_materialized_input(&bond_ref, &owner, &time(1), &VersionRef::new("bond".to_owned(), 2), &owner, &time(1)).unwrap_err().category(), ApplicationErrorCategory::HashMismatch);
    assert_eq!(check_materialized_input(&bond_ref, &owner, &time(1), &bond_ref, &owner, &time(2)).unwrap_err().category(), ApplicationErrorCategory::HashMismatch);
}
