use ficant_application::aggregation::aggregate_existing_krd;
use ficant_application::aggregation::{
    FactorDv01, PortfolioBondMetricFacts, PortfolioCoverageReason, PortfolioMetricDataMode,
    PortfolioMetricOutputScales, PortfolioMetricPosition, PortfolioRatesUnitBindings,
    PortfolioRatesUnitRole, PortfolioWeightedMetricEligibility, PortfolioWeightedMetricUnits,
    RatesUnitRequirement, aggregate_portfolio_metrics, dimension_name,
};
use ficant_application::decimal::{DecimalValue, FixedDecimal, UnitRef};
use ficant_application::error::ApplicationErrorCategory;

const ONE: i128 = 1_000_000_000_000;

fn unit(id: &str) -> UnitRef {
    UnitRef::new(id.to_owned(), 1)
}

fn money(amount: i128) -> DecimalValue {
    DecimalValue::new(amount, 0, unit("cny")).unwrap()
}

fn units() -> PortfolioWeightedMetricUnits {
    PortfolioWeightedMetricUnits::new(unit("rate"), unit("years"), unit("years2"), unit("rate"), unit("years"))
}

fn bond(id: &str, mv: i128, notional: i128, ytm_bp: i128, duration: i128, convexity: i128, coupon_bp: i128, years: i128) -> PortfolioMetricPosition {
    let facts = PortfolioBondMetricFacts::new(
        FixedDecimal::from_scaled(ytm_bp * ONE / 10_000),
        FixedDecimal::from_scaled(duration * ONE),
        FixedDecimal::from_scaled(convexity * ONE),
        FixedDecimal::from_scaled(coupon_bp * ONE / 10_000),
        FixedDecimal::from_scaled(years * ONE),
        units(),
    )
    .unwrap();
    PortfolioMetricPosition::from_totals(
        id.to_owned(),
        money(mv),
        money(0),
        FixedDecimal::from_scaled(notional * ONE),
        PortfolioWeightedMetricEligibility::Bond(Box::new(facts)),
    )
    .unwrap()
}

fn krd() -> Vec<FactorDv01> {
    vec![
        FactorDv01 { factor_id: "2y".to_owned(), factor_definition_hash: vec![1], value: FixedDecimal::from_scaled(10 * ONE), unit: unit("dv01") },
        FactorDv01 { factor_id: "5y".to_owned(), factor_definition_hash: vec![2], value: FixedDecimal::from_scaled(20 * ONE), unit: unit("dv01") },
    ]
}

#[test]
fn complete_portfolio_has_exact_weighted_averages() {
    let positions = vec![
        bond("a", 100, 100, 300, 2, 10, 200, 5),
        bond("b", 300, 300, 500, 4, 20, 400, 10),
    ];
    let scales = PortfolioMetricOutputScales::new(2, 6, 4, 4, 2).unwrap();
    let result = aggregate_portfolio_metrics(&positions, &krd(), scales).unwrap();
    assert_eq!(result.data_mode, PortfolioMetricDataMode::Real);
    assert_eq!(result.basic_metrics.market_value.coefficient, 40_000);
    assert_eq!(result.basic_metrics.dv01.coefficient, 3_000);
    assert_eq!(result.basic_metrics.weighted_ytm.as_ref().unwrap().coefficient, 47_143);
    assert_eq!(result.basic_metrics.modified_duration.as_ref().unwrap().coefficient, 35_000);
    assert_eq!(result.basic_metrics.convexity.as_ref().unwrap().coefficient, 175_000);
    assert_eq!(result.basic_metrics.weighted_coupon_rate.as_ref().unwrap().coefficient, 35_000);
    assert_eq!(result.basic_metrics.weighted_remaining_years.as_ref().unwrap().coefficient, 87_500);
    assert_eq!(result.coverage.imported_position_count(), 2);
    assert_eq!(result.coverage.weighted_average_participating_position_count(), 2);
    assert!(result.coverage.missing_reasons().is_empty());
    assert_eq!(result.krd_summary.totals.len(), 2);
}

#[test]
fn non_bond_positions_make_the_aggregate_partial() {
    let cash = PortfolioMetricPosition::from_totals(
        "c".to_owned(),
        money(50),
        money(1),
        FixedDecimal::from_scaled(50 * ONE),
        PortfolioWeightedMetricEligibility::NonBond,
    )
    .unwrap();
    let positions = vec![bond("a", 100, 100, 300, 2, 10, 200, 5), cash];
    let scales = PortfolioMetricOutputScales::new(2, 6, 4, 4, 2).unwrap();
    let result = aggregate_portfolio_metrics(&positions, &krd(), scales).unwrap();
    assert_eq!(result.data_mode, PortfolioMetricDataMode::Partial);
    assert_eq!(result.basic_metrics.market_value.coefficient, 15_000);
    assert_eq!(result.basic_metrics.economic_pnl.coefficient, 100);
    assert!(result.basic_metrics.weighted_ytm.is_none());
    assert_eq!(
        result.coverage.missing_reasons(),
        &[PortfolioCoverageReason::NonBondExcludedFromWeightedAverages]
    );
    assert_eq!(result.coverage.weighted_average_participating_position_count(), 1);
}

#[test]
fn unordered_positions_and_empty_krd_are_refused() {
    let scales = PortfolioMetricOutputScales::new(2, 6, 4, 4, 2).unwrap();
    let unordered = vec![bond("b", 1, 1, 1, 1, 1, 1, 1), bond("a", 1, 1, 1, 1, 1, 1, 1)];
    assert_eq!(
        aggregate_portfolio_metrics(&unordered, &krd(), scales).unwrap_err().category(),
        ApplicationErrorCategory::ValidationFailed
    );
    let ordered = vec![bond("a", 1, 1, 1, 1, 1, 1, 1)];
    assert_eq!(
        aggregate_portfolio_metrics(&ordered, &[], scales).unwrap_err().category(),
        ApplicationErrorCategory::ValidationFailed
    );
    let mut duplicated = krd();
    duplicated[1].factor_id = "2y".to_owned();
    assert_eq!(
        aggregate_portfolio_metrics(&ordered, &duplicated, scales).unwrap_err().category(),
        ApplicationErrorCategory::LineageIncomplete
    );
    assert!(aggregate_portfolio_metrics(&[], &krd(), scales).is_err());
}

#[test]
fn short_positions_are_excluded_from_averages() {
    let short = bond("b", 100, -100, 300, 2, 10, 200, 5);
    let positions = vec![bond("a", 100, 100, 300, 2, 10, 200, 5), short];
    let scales = PortfolioMetricOutputScales::new(2, 6, 4, 4, 2).unwrap();
    let result = aggregate_portfolio_metrics(&positions, &krd(), scales).unwrap();
    assert_eq!(result.data_mode, PortfolioMetricDataMode::Partial);
    assert_eq!(
        result.coverage.missing_reasons(),
        &[PortfolioCoverageReason::ShortPositionExcludedFromWeightedAverages]
    );
}

#[test]
fn output_scales_are_bounded() {
    assert!(PortfolioMetricOutputScales::new(28, 28, 28, 28, 28).is_ok());
    assert!(PortfolioMetricOutputScales::new(29, 0, 0, 0, 0).is_err());
    let scales = PortfolioMetricOutputScales::new(1, 2, 3, 4, 5).unwrap();
    assert_eq!((scales.money(), scales.rate(), scales.years(), scales.years_squared(), scales.dv01()), (1, 2, 3, 4, 5));
}

fn all_roles() -> Vec<PortfolioRatesUnitRole> {
    vec![
        PortfolioRatesUnitRole::CurrencyAmount,
        PortfolioRatesUnitRole::PricePer100,
        PortfolioRatesUnitRole::Rate,
        PortfolioRatesUnitRole::Years,
        PortfolioRatesUnitRole::YearsSquared,
        PortfolioRatesUnitRole::Dv01Per100,
        PortfolioRatesUnitRole::Dv01,
        PortfolioRatesUnitRole::Dimensionless,
        PortfolioRatesUnitRole::ContractCount,
    ]
}

fn requirement(role: PortfolioRatesUnitRole) -> RatesUnitRequirement {
    RatesUnitRequirement::new(UnitRef::new(format!("unit-{}", dimension_name(role)), 1), dimension_name(role).to_owned())
}

#[test]
fn rates_unit_bindings_need_all_nine_canonical_roles() {
    let values: Vec<_> = all_roles().into_iter().rev().map(|role| (role, requirement(role))).collect();
    let bindings = PortfolioRatesUnitBindings::new(values).unwrap();
    assert_eq!(bindings.rate().reference.unit_id, "unit-rate");
    assert_eq!(bindings.contract_count().expected_dimension, "contract_count");
    let listed: Vec<String> = bindings.requirements().iter().map(|r| r.expected_dimension.clone()).collect();
    let expected: Vec<String> = all_roles().into_iter().map(|role| dimension_name(role).to_owned()).collect();
    assert_eq!(listed, expected);

    let mut missing: Vec<_> = all_roles().into_iter().map(|role| (role, requirement(role))).collect();
    missing.pop();
    assert!(PortfolioRatesUnitBindings::new(missing).is_err());

    let mut duplicated: Vec<_> = all_roles().into_iter().map(|role| (role, requirement(role))).collect();
    duplicated[8] = (PortfolioRatesUnitRole::Rate, requirement(PortfolioRatesUnitRole::Rate));
    assert!(PortfolioRatesUnitBindings::new(duplicated).is_err());

    let mut wrong_dimension: Vec<_> = all_roles().into_iter().map(|role| (role, requirement(role))).collect();
    wrong_dimension[0].1 = RatesUnitRequirement::new(unit("x"), "years".to_owned());
    assert!(PortfolioRatesUnitBindings::new(wrong_dimension).is_err());
}

fn factor(id: &str, value: i128) -> FactorDv01 {
    FactorDv01 { factor_id: id.to_owned(), factor_definition_hash: id.as_bytes().to_vec(), value: FixedDecimal::from_scaled(value), unit: unit("dv01") }
}

#[test]
fn member_krd_vectors_add_factor_by_factor() {
    let members = vec![
        vec![factor("2y", 10), factor("5y", -4)],
        vec![factor("2y", 7), factor("5y", 9)],
        vec![factor("2y", 1), factor("5y", 1)],
    ];
    let totals = aggregate_existing_krd(&members).unwrap();
    assert_eq!(totals.len(), 2);
    assert_eq!((totals[0].factor_id.as_str(), totals[0].value.scaled), ("2y", 18));
    assert_eq!((totals[1].factor_id.as_str(), totals[1].value.scaled), ("5y", 6));
    let member_parallel: i128 = members.iter().map(|m| m.iter().map(|f| f.value.scaled).sum::<i128>()).sum();
    assert_eq!(totals.iter().map(|f| f.value.scaled).sum::<i128>(), member_parallel);
}

#[test]
fn misaligned_or_overflowing_krd_vectors_are_refused() {
    assert_eq!(aggregate_existing_krd(&[]).unwrap_err().category(), ApplicationErrorCategory::ValidationFailed);
    assert_eq!(aggregate_existing_krd(&[vec![]]).unwrap_err().category(), ApplicationErrorCategory::ValidationFailed);
    let shorter = vec![vec![factor("2y", 1), factor("5y", 1)], vec![factor("2y", 1)]];
    assert_eq!(aggregate_existing_krd(&shorter).unwrap_err().category(), ApplicationErrorCategory::LineageIncomplete);
    let renamed = vec![vec![factor("2y", 1)], vec![factor("3y", 1)]];
    assert_eq!(aggregate_existing_krd(&renamed).unwrap_err().category(), ApplicationErrorCategory::LineageIncomplete);
    let overflow = vec![vec![factor("2y", i128::MAX)], vec![factor("2y", 1)]];
    assert_eq!(aggregate_existing_krd(&overflow).unwrap_err().category(), ApplicationErrorCategory::ValidationFailed);
}
