use sha2::Digest;
use ficant_application::decimal::{FixedDecimal, UnitRef};
use ficant_application::error::ApplicationErrorCategory;
use ficant_application::primitives::{Instant, LocalDate, MarketTime, VersionRef};
use ficant_application::quotes::{
    DeliveryQuote, QuoteWindow, exact_midpoint_quotes, exact_request_quotes,
};

const DAY: LocalDate = LocalDate { year: 2025, month: 3, day: 14 };

fn time(seconds: i64) -> MarketTime {
    MarketTime { instant: Instant { seconds, nanos: 0 }, market_timezone: "Asia/Shanghai".to_owned(), local_trading_date: DAY }
}

fn window() -> QuoteWindow {
    QuoteWindow { as_of: time(1_000), visible_at: time(2_000), valuation_date: DAY, price_unit: UnitRef::new("cny-per-100".to_owned(), 1) }
}

fn quote(bond: &str, observed: i64, visible: i64, bid: Option<i128>, ask: Option<i128>) -> DeliveryQuote {
    DeliveryQuote {
        instrument: VersionRef::new(bond.to_owned(), 1),
        observed_at: time(observed),
        visible_at: time(visible),
        local_trading_date: DAY,
        bid: bid.map(FixedDecimal::from_scaled),
        ask: ask.map(FixedDecimal::from_scaled),
        unit: UnitRef::new("cny-per-100".to_owned(), 1),
    }
}

#[test]
fn latest_quote_of_each_instrument_is_selected() {
    let quotes = vec![
        quote("a", 100, 150, Some(98), Some(100)),
        quote("b", 110, 150, Some(50), Some(52)),
        quote("a", 300, 350, Some(99), Some(101)),
        quote("a", 200, 250, Some(97), Some(99)),
        quote("b", 900, 2_500, Some(1), Some(3)),
    ];
    let selected = exact_midpoint_quotes(&window(), &quotes).unwrap();
    assert_eq!(selected.len(), 2);
    let a = selected.iter().find(|q| q.instrument.id == "a").unwrap();
    assert_eq!(a.observed_at.instant.seconds, 300);
    let b = selected.iter().find(|q| q.instrument.id == "b").unwrap();
    assert_eq!(b.observed_at.instant.seconds, 110);
}

#[test]
fn midpoints_must_be_exact_and_two_sided() {
    let odd = vec![quote("a", 100, 150, Some(98), Some(101))];
    assert_eq!(exact_midpoint_quotes(&window(), &odd).unwrap_err().category(), ApplicationErrorCategory::ValidationFailed);
    let one_sided = vec![quote("a", 100, 150, Some(98), None)];
    assert!(exact_midpoint_quotes(&window(), &one_sided).is_err());
    assert_eq!(exact_request_quotes(&window(), &one_sided).unwrap().len(), 1);
    let crossed = vec![quote("a", 100, 150, Some(102), Some(100))];
    assert!(exact_request_quotes(&window(), &crossed).is_err());
    let empty_sides = vec![quote("a", 100, 150, None, None)];
    assert!(exact_request_quotes(&window(), &empty_sides).is_err());
}

#[test]
fn incoherent_quotes_fail_even_when_unused() {
    let visible_before_observed = vec![quote("a", 5_000, 4_000, Some(1), Some(3))];
    assert!(exact_request_quotes(&window(), &visible_before_observed).is_err());
    let mut other_zone = quote("a", 100, 150, Some(1), Some(3));
    other_zone.observed_at.market_timezone = "UTC".to_owned();
    assert!(exact_request_quotes(&window(), &vec![other_zone]).is_err());
}

#[test]
fn ties_with_the_latest_quote_fail_closed() {
    let tie = vec![quote("a", 100, 150, Some(1), Some(3)), quote("a", 100, 150, Some(2), Some(4))];
    assert!(exact_request_quotes(&window(), &tie).is_err());
    let superseded_tie = vec![
        quote("a", 100, 150, Some(1), Some(3)),
        quote("a", 300, 350, Some(1), Some(3)),
        quote("a", 100, 150, Some(2), Some(4)),
    ];
    assert_eq!(exact_request_quotes(&window(), &superseded_tie).unwrap()[0].observed_at.instant.seconds, 300);
}

fn framed(fields: &[&[u8]]) -> Vec<u8> {
    let mut bytes = Vec::new();
    for field in fields {
        bytes.extend_from_slice(&(field.len() as u64).to_be_bytes());
        bytes.extend_from_slice(field);
    }
    bytes
}

#[test]
fn quote_evidence_hash_digests_the_framed_fields() {
    let mut q = quote("bond-1", 1_700_000_000, 1_700_000_060, Some(99_500_000_000_000), None);
    q.observed_at.instant.nanos = 123_456_789;
    let expected_bytes = framed(&[
        b"bond-1",
        &1u64.to_be_bytes(),
        &1_700_000_000_123_456i64.to_be_bytes(),
        &1_700_000_060_000_000i64.to_be_bytes(),
        b"2025-03-14",
        &99_500_000_000_000i128.to_be_bytes(),
        &i128::MIN.to_be_bytes(),
        b"cny-per-100",
        &1u64.to_be_bytes(),
    ]);
    let expected = sha2::Sha256::digest(&expected_bytes).to_vec();
    assert_eq!(ficant_application::quotes::quote_evidence_hash(&q), expected);
}

#[test]
fn quote_evidence_hash_writes_out_of_range_years_with_a_sign() {
    let mut q = quote("b", -1_000, -999, Some(-5), Some(7));
    q.local_trading_date = LocalDate { year: -1, month: 1, day: 5 };
    let expected_bytes = framed(&[
        b"b",
        &1u64.to_be_bytes(),
        &(-1_000_000_000i64).to_be_bytes(),
        &(-999_000_000i64).to_be_bytes(),
        b"-0001-01-05",
        &(-5i128).to_be_bytes(),
        &7i128.to_be_bytes(),
        b"cny-per-100",
        &1u64.to_be_bytes(),
    ]);
    assert_eq!(ficant_application::quotes::quote_evidence_hash(&q), sha2::Sha256::digest(&expected_bytes).to_vec());
    q.local_trading_date = LocalDate { year: 12345, month: 6, day: 7 };
    let later = ficant_application::quotes::quote_evidence_hash(&q);
    let expected_bytes = framed(&[
        b"b",
        &1u64.to_be_bytes(),
        &(-1_000_000_000i64).to_be_bytes(),
        &(-999_000_000i64).to_be_bytes(),
        b"+12345-06-07",
        &(-5i128).to_be_bytes(),
        &7i128.to_be_bytes(),
        b"cny-per-100",
        &1u64.to_be_bytes(),
    ]);
    assert_eq!(later, sha2::Sha256::digest(&expected_bytes).to_vec());
}
