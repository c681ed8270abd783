use ficant_application::aggregation::PortfolioRatesUnitRole;
use ficant_application::catalog::{
    AnalyticsMode, ListPortfolioCatalogCommand, PORTFOLIO_CATALOG_MAX_PAGE_SIZE,
    ValuationValueRole, all_rates_unit_roles, validate_analytics_context,
    validate_bound_valuation_roles, validate_effective,
};
use ficant_application::error::{ApplicationError, ApplicationErrorCategory};
use ficant_application::primitives::{Instant, OwnerRef, VersionRef};

#[test]
fn bound_valuation_roles_are_exact_for_mode_and_remaining_years() {
    assert!(
        validate_bound_valuation_roles(
            AnalyticsMode::YieldIn,
            &[
                ValuationValueRole::Yield,
                ValuationValueRole::RemainingYears
            ],
            0,
            1,
        )
        .is_ok()
    );
    assert!(
        validate_bound_valuation_roles(
            AnalyticsMode::PriceIn,
            &[
                ValuationValueRole::Price,
                ValuationValueRole::RemainingYears
            ],
            0,
            1,
        )
        .is_ok()
    );
    for (mode, roles) in [
        (
            AnalyticsMode::YieldIn,
            [
                ValuationValueRole::Price,
                ValuationValueRole::RemainingYears,
            ],
        ),
        (
            AnalyticsMode::PriceIn,
            [
                ValuationValueRole::Yield,
                ValuationValueRole::RemainingYears,
            ],
        ),
        (
            AnalyticsMode::YieldIn,
            [ValuationValueRole::Yield, ValuationValueRole::Price],
        ),
    ] {
        assert!(validate_bound_valuation_roles(mode, &roles, 0, 1).is_err());
    }
    assert!(
        validate_bound_valuation_roles(
            AnalyticsMode::YieldIn,
            &[
                ValuationValueRole::Yield,
                ValuationValueRole::RemainingYears
            ],
            2,
            1,
        )
        .is_err()
    );
}

#[test]
fn mismatched_roles_are_integrity_failures() {
    let error = validate_bound_valuation_roles(
        AnalyticsMode::PriceIn,
        &[ValuationValueRole::Yield, ValuationValueRole::RemainingYears],
        0,
        1,
    )
    .unwrap_err();
    assert_eq!(error.category(), ApplicationErrorCategory::HashMismatch);
}

#[test]
fn catalog_command_bounds_limit_and_cursor() {
    let command = ListPortfolioCatalogCommand::new("filter", Some("abc".to_owned()), 25).unwrap();
    assert_eq!(*command.filter(), "filter");
    assert_eq!(command.cursor(), Some("abc"));
    assert_eq!(command.limit(), 25);
    assert!(ListPortfolioCatalogCommand::new((), None, PORTFOLIO_CATALOG_MAX_PAGE_SIZE).is_ok());
    assert!(ListPortfolioCatalogCommand::new((), None, 1).is_ok());
    for limit in [0, PORTFOLIO_CATALOG_MAX_PAGE_SIZE + 1] {
        assert_eq!(
            ListPortfolioCatalogCommand::new((), None, limit).unwrap_err(),
            ApplicationError::new(ApplicationErrorCategory::ValidationFailed, false)
        );
    }
    for cursor in ["", " abc", "abc\n", "\u{3000}x"] {
        assert!(ListPortfolioCatalogCommand::new((), Some(cursor.to_owned()), 10).is_err());
    }
    assert_eq!(
        ListPortfolioCatalogCommand::new((), None, 10).unwrap().cursor(),
        None
    );
}

#[test]
fn rates_unit_roles_are_listed_in_canonical_order() {
    assert_eq!(
        all_rates_unit_roles(),
        vec![
            PortfolioRatesUnitRole::CurrencyAmount,
            PortfolioRatesUnitRole::PricePer100,
            PortfolioRatesUnitRole::Rate,
            PortfolioRatesUnitRole::Years,
            PortfolioRatesUnitRole::YearsSquared,
            PortfolioRatesUnitRole::Dv01Per100,
            PortfolioRatesUnitRole::Dv01,
            PortfolioRatesUnitRole::Dimensionless,
            PortfolioRatesUnitRole::ContractCount,
        ]
    );
}

fn at(seconds: i64) -> Instant {
    Instant { seconds, nanos: 0 }
}

#[test]
fn effective_window_includes_start_and_excludes_end() {
    assert!(validate_effective(at(10), at(20), at(10)).is_ok());
    assert!(validate_effective(at(10), at(20), at(19)).is_ok());
    assert!(validate_effective(at(10), at(20), at(20)).is_err());
    assert!(validate_effective(at(10), at(20), at(9)).is_err());
    assert!(
        validate_effective(
            Instant { seconds: 10, nanos: 5 },
            at(20),
            Instant { seconds: 10, nanos: 4 }
        )
        .is_err()
    );
}

#[test]
fn analytics_context_rejects_future_snapshots() {
    let owner = OwnerRef::new("tenant".to_owned(), "owner".to_owned());
    let subject = VersionRef::new("subject".to_owned(), 1);
    let ok = validate_analytics_context(
        Ok(()),
        &owner,
        &subject,
        at(100),
        at(200),
        &owner,
        &subject,
        at(150),
        at(90),
    );
    assert!(ok.is_ok());
    let late_visible = validate_analytics_context(
        Ok(()),
        &owner,
        &subject,
        at(100),
        at(200),
        &owner,
        &subject,
        at(201),
        at(90),
    );
    assert_eq!(
        late_visible.unwrap_err().category(),
        ApplicationErrorCategory::HashMismatch
    );
    let denied = validate_analytics_context(
        Err(ApplicationError::new(ApplicationErrorCategory::Forbidden, false)),
        &owner,
        &subject,
        at(100),
        at(200),
        &owner,
        &subject,
        at(150),
        at(90),
    );
    assert_eq!(denied.unwrap_err().category(), ApplicationErrorCategory::Forbidden);
    let other_subject = VersionRef::new("subject".to_owned(), 2);
    assert!(
        validate_analytics_context(
            Ok(()),
            &owner,
            &subject,
            at(100),
            at(200),
            &owner,
            &other_subject,
            at(150),
            at(90),
        )
        .is_err()
    );
}
