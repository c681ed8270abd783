use ficant_application::decimal::{FixedDecimal, UnitRef};
use ficant_application::delivery::{
    FuturesCandidateFacts, check_requested_candidates, delivery_month_first,
    materialize_registered_delivery, requested_matches_eligible, sorted_evidence_hashes,
};
use ficant_application::error::{ApplicationErrorCategory, DomainErrorCode, Rejection};
use ficant_application::primitives::{Instant, LocalDate, MarketTime, OwnerRef, VersionRef};
use ficant_application::quotes::DeliveryQuote;

const DAY: LocalDate = LocalDate { year: 2025, month: 3, day: 14 };

fn time() -> MarketTime {
    MarketTime { instant: Instant { seconds: 100, nanos: 0 }, market_timezone: "Asia/Shanghai".to_owned(), local_trading_date: DAY }
}

fn quote(id: &str, bid: Option<i128>, ask: Option<i128>) -> DeliveryQuote {
    DeliveryQuote {
        instrument: VersionRef::new(id.to_owned(), 1),
        observed_at: time(),
        visible_at: time(),
        local_trading_date: DAY,
        bid: bid.map(FixedDecimal::from_scaled),
        ask: ask.map(FixedDecimal::from_scaled),
        unit: UnitRef::new("cny-per-100".to_owned(), 1),
    }
}

fn reference(id: &str) -> VersionRef {
    VersionRef::new(id.to_owned(), 1)
}

fn candidate(id: &str, price: i128) -> FuturesCandidateFacts {
    FuturesCandidateFacts { bond: reference(id), spot_clean_price: FixedDecimal::from_scaled(price) }
}

#[test]
fn requested_candidates_must_be_quoted_once_each() {
    let quotes = vec![quote("b1", Some(100), Some(102)), quote("b2", Some(98), None), quote("fut", Some(90), Some(92))];
    let futures = reference("fut");
    let price = FixedDecimal::from_scaled(92);
    assert!(check_requested_candidates(&[candidate("b1", 102), candidate("b2", 98)], &quotes, &futures, price).is_ok());
    assert_eq!(check_requested_candidates(&[], &quotes, &futures, price), Err(DomainErrorCode::InvalidValue));
    assert_eq!(check_requested_candidates(&[candidate("b1", 102), candidate("b1", 100)], &quotes, &futures, price), Err(DomainErrorCode::InvalidValue));
    assert_eq!(check_requested_candidates(&[candidate("b1", 101)], &quotes, &futures, price), Err(DomainErrorCode::InvalidValue));
    assert_eq!(check_requested_candidates(&[candidate("b3", 100)], &quotes, &futures, price), Err(DomainErrorCode::InvalidValue));
    assert_eq!(check_requested_candidates(&[candidate("b1", 100)], &quotes, &futures, FixedDecimal::from_scaled(91)), Err(DomainErrorCode::InvalidValue));
}

#[test]
fn requested_basket_must_equal_the_eligible_basket() {
    assert!(requested_matches_eligible(&[reference("b2"), reference("b1")], &[reference("b1"), reference("b2")]).is_ok());
    assert_eq!(requested_matches_eligible(&[reference("b1")], &[reference("b1"), reference("b2")]), Err(DomainErrorCode::InvalidValue));
    assert_eq!(requested_matches_eligible(&[reference("b1"), reference("b3")], &[reference("b1")]), Err(DomainErrorCode::InvalidValue));
}

#[test]
fn purchase_must_come_before_delivery() {
    let first = delivery_month_first(DAY, LocalDate { year: 2025, month: 6, day: 18 }).unwrap();
    assert_eq!(first, LocalDate { year: 2025, month: 6, day: 1 });
    assert_eq!(delivery_month_first(DAY, DAY), Err(DomainErrorCode::InvalidValue));
}

#[test]
fn registered_delivery_prices_every_deliverable_bond_at_its_midpoint() {
    let quotes = vec![quote("b1", Some(100), Some(102)), quote("b2", Some(96), Some(100)), quote("b3", Some(1), Some(2)), quote("fut", Some(90), Some(94))];
    let owner = OwnerRef::new("tenant".to_owned(), "desk".to_owned());
    let settlement = LocalDate { year: 2025, month: 6, day: 18 };
    let inputs = materialize_registered_delivery(&owner, &reference("fut"), &time(), settlement, &quotes, &[true, true, false, true]).unwrap();
    let bonds: Vec<(String, i128)> = inputs.iter().map(|b| (b.bond.id.clone(), b.spot_clean_price.scaled)).collect();
    assert_eq!(bonds, vec![("b1".to_owned(), 101), ("b2".to_owned(), 98)]);
    for input in &inputs {
        assert_eq!(input.owner, owner);
        assert_eq!(input.futures_contract, reference("fut"));
        assert_eq!(input.valuation_at, time());
        assert_eq!(input.purchase_date, DAY);
        assert_eq!(input.delivery_month_first, LocalDate { year: 2025, month: 6, day: 1 });
        assert_eq!(input.delivery_date, settlement);
        assert_eq!(input.futures_clean_price, FixedDecimal::from_scaled(92));
        assert_eq!(input.financing_rate, FixedDecimal::from_scaled(0));
    }

    let missing = materialize_registered_delivery(&owner, &reference("other"), &time(), settlement, &quotes, &[true, true, false, true]).unwrap_err();
    assert_eq!(missing, Rejection::Application(ficant_application::error::ApplicationError::new(ApplicationErrorCategory::LineageIncomplete, false)));
    let odd = materialize_registered_delivery(&owner, &reference("fut"), &time(), settlement, &quotes, &[true, true, true, true]).unwrap_err();
    assert!(matches!(odd, Rejection::Application(e) if e.category() == ApplicationErrorCategory::ValidationFailed));
    let none = materialize_registered_delivery(&owner, &reference("fut"), &time(), settlement, &quotes, &[false, false, false, true]).unwrap_err();
    assert_eq!(none, Rejection::Domain(DomainErrorCode::InvalidValue));
    let late = materialize_registered_delivery(&owner, &reference("fut"), &time(), DAY, &quotes, &[true, true, true, true]).unwrap_err();
    assert_eq!(late, Rejection::Domain(DomainErrorCode::InvalidValue));
}

#[test]
fn evidence_hashes_come_sorted_without_repeats() {
    let sorted = sorted_evidence_hashes(vec![vec![3, 1], vec![1, 2, 3], vec![3], vec![1, 2, 3], vec![0, 9]]);
    assert_eq!(sorted, vec![vec![0, 9], vec![1, 2, 3], vec![3], vec![3, 1]]);
    assert!(sorted_evidence_hashes(Vec::new()).is_empty());
}
