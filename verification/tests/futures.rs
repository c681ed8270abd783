use ficant_application::futures::{
    DeliveryDataSnapshotFacts, FuturesContractFacts, validate_delivery_data_snapshot,
    validate_futures_contract,
};
use ficant_application::primitives::{OwnerRef, VersionRef};
use ficant_application::decimal::{DecimalValue, FixedDecimal, UnitRef};
use ficant_application::error::ApplicationErrorCategory;
use ficant_application::futures::{
    CtdCandidate, decimal_matches_fixed, delivery_decimal_to_fixed, exact_midpoint, quote_matches,
    select_ctd,
};

fn fixed(scaled: i128) -> FixedDecimal {
    FixedDecimal::from_scaled(scaled)
}

fn candidate(irr: i128, basis: i128, id: &str) -> CtdCandidate {
    CtdCandidate { implied_repo_rate: fixed(irr), net_basis: fixed(basis), bond_id: id.to_owned() }
}

fn unit() -> UnitRef {
    UnitRef::new("price".to_owned(), 1)
}

#[test]
fn ctd_is_maximum_irr_then_lowest_basis_then_smallest_id() {
    let basket = vec![candidate(5, 3, "c"), candidate(7, 9, "b"), candidate(7, 2, "z"), candidate(7, 2, "a")];
    assert_eq!(select_ctd(&basket), 3);
    assert_eq!(select_ctd(&basket[..1]), 0);
    let ties = vec![candidate(1, 1, "x"), candidate(1, 1, "x")];
    assert_eq!(select_ctd(&ties), 0);
}

#[test]
fn midpoint_is_exact_or_refused() {
    assert_eq!(exact_midpoint(Some(fixed(100)), Some(fixed(102))).unwrap(), fixed(101));
    assert_eq!(exact_midpoint(Some(fixed(-3)), Some(fixed(-5))).unwrap(), fixed(-4));
    assert_eq!(
        exact_midpoint(Some(fixed(100)), Some(fixed(101))).unwrap_err().category(),
        ApplicationErrorCategory::ValidationFailed
    );
    assert!(exact_midpoint(Some(fixed(-1)), Some(fixed(0))).is_err());
    assert!(exact_midpoint(None, Some(fixed(2))).is_err());
    assert!(exact_midpoint(Some(fixed(i128::MAX)), Some(fixed(1))).is_err());
}

#[test]
fn quotes_match_either_side() {
    assert!(quote_matches(Some(fixed(1)), Some(fixed(2)), fixed(2)));
    assert!(quote_matches(Some(fixed(1)), None, fixed(1)));
    assert!(!quote_matches(None, None, fixed(1)));
}

#[test]
fn delivery_decimals_convert_without_losing_digits() {
    let value = DecimalValue::new(10_125, 3, unit()).unwrap();
    assert_eq!(delivery_decimal_to_fixed(&value).unwrap(), fixed(10_125_000_000_000));
    let too_fine = DecimalValue::new(1, 13, unit()).unwrap();
    assert!(delivery_decimal_to_fixed(&too_fine).is_err());
    assert!(decimal_matches_fixed(&value, fixed(10_125_000_000_000)));
    let coarse = DecimalValue::new(10_000_000_000_000, 13, unit()).unwrap();
    assert!(decimal_matches_fixed(&coarse, fixed(1_000_000_000_000)));
    assert!(!decimal_matches_fixed(&too_fine, fixed(0)));
}

fn market(seconds: i64, zone: &str) -> ficant_application::primitives::MarketTime {
    ficant_application::primitives::MarketTime {
        instant: ficant_application::primitives::Instant { seconds, nanos: 0 },
        market_timezone: zone.to_owned(),
        local_trading_date: ficant_application::primitives::LocalDate { year: 2025, month: 3, day: 14 },
    }
}

#[test]
fn registered_futures_contract_and_data_snapshot_are_checked() {
    let owner = OwnerRef::new("t".to_owned(), "o".to_owned());
    let requested = VersionRef::new("T2506".to_owned(), 3);
    let contract = FuturesContractFacts {
        instrument_owner: owner.clone(),
        instrument_ref: requested.clone(),
        is_futures: true,
        contract_instrument: requested.clone(),
        product_code: Some("T".to_owned()),
        price_unit: Some(ficant_application::decimal::UnitRef::new("cny-per-100".to_owned(), 1)),
        last_trade_time: market(2_000, "Asia/Shanghai"),
        expiry_time: market(2_000, "Asia/Shanghai"),
        settlement_time: market(3_000, "Asia/Shanghai"),
    };
    let valuation = market(1_000, "Asia/Shanghai");
    assert!(validate_futures_contract(&contract, &owner, &requested, &valuation).is_ok());
    let expired = FuturesContractFacts { last_trade_time: market(999, "Asia/Shanghai"), ..contract.clone() };
    assert_eq!(validate_futures_contract(&expired, &owner, &requested, &valuation).unwrap_err().category(), ficant_application::error::ApplicationErrorCategory::LineageIncomplete);
    let elsewhere = FuturesContractFacts { settlement_time: market(3_000, "UTC"), ..contract.clone() };
    assert!(validate_futures_contract(&elsewhere, &owner, &requested, &valuation).is_err());
    let snapshot = DeliveryDataSnapshotFacts { id: "snap".to_owned(), owner: owner.clone(), as_of: market(1_000, "Asia/Shanghai"), visible_at: market(1_500, "Asia/Shanghai") };
    let knowledge = market(2_000, "Asia/Shanghai");
    assert!(validate_delivery_data_snapshot(&snapshot, &"snap".to_owned(), &owner, &valuation, &knowledge).is_ok());
    assert!(validate_delivery_data_snapshot(&snapshot, &"snap".to_owned(), &owner, &valuation, &market(1_400, "Asia/Shanghai")).is_err());
    let early = DeliveryDataSnapshotFacts { visible_at: market(900, "Asia/Shanghai"), ..snapshot.clone() };
    assert!(validate_delivery_data_snapshot(&early, &"snap".to_owned(), &owner, &valuation, &knowledge).is_err());
}
