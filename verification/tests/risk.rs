use sha2::Digest;
use ficant_application::calendar::{CalendarSession, LocalTime};
use ficant_application::decimal::{DecimalValue, FixedDecimal, UnitRef};
use ficant_application::error::{ApplicationError, ApplicationErrorCategory};
use ficant_application::primitives::{Instant, LocalDate, MarketTime, OwnerRef};
use ficant_application::risk::{
    CurveNodeFacts, CurvePointFacts, CurveSnapshotFacts, FactorDefinitionFacts,
    KeyRateCommandFacts, RegisteredUnitFacts, decimal_precision, key_rate_trace_token,
    require_open_settlement, scale_by_notional, tenor_date, validate_curve_snapshot,
    validate_decimal_unit, validate_factor, validate_fixed_output, validate_node,
    validate_position_snapshot,
};

fn unit() -> UnitRef {
    UnitRef::new("face".to_owned(), 1)
}

fn date(year: i32, month: u32, day: u32) -> LocalDate {
    LocalDate { year, month, day }
}

#[test]
fn scale_by_notional_is_exact() {
    let quantity = DecimalValue::new(250, 0, unit()).unwrap();
    let value = FixedDecimal::from_scaled(3_000_000_000_000);
    let face = FixedDecimal::from_scaled(100_000_000_000_000);
    assert_eq!(scale_by_notional(value, &quantity, face).unwrap().scaled(), 7_500_000_000_000);
    let negative = FixedDecimal::from_scaled(-3_000_000_000_000);
    assert_eq!(scale_by_notional(negative, &quantity, face).unwrap().scaled(), -7_500_000_000_000);
    let odd = DecimalValue::new(1, 12, unit()).unwrap();
    assert!(scale_by_notional(FixedDecimal::from_scaled(1), &odd, FixedDecimal::from_scaled(3)).is_err());
    assert!(scale_by_notional(value, &quantity, FixedDecimal::from_scaled(0)).is_err());
    let fine = DecimalValue::new(1, 13, unit()).unwrap();
    assert!(scale_by_notional(value, &fine, face).is_err());
    let huge = DecimalValue::new(i128::MAX / 1_000_000_000_000, 0, unit()).unwrap();
    assert_eq!(scale_by_notional(value, &huge, face).unwrap_err().category(), ApplicationErrorCategory::ValidationFailed);
}

#[test]
fn precision_counts_digits_without_sign() {
    assert_eq!(decimal_precision(0), 1);
    assert_eq!(decimal_precision(-12_345), 5);
    assert_eq!(decimal_precision(i128::MIN), 39);
    let registered = RegisteredUnitFacts {
        identity: "face".to_owned(),
        version: 1,
        owner: OwnerRef::new("t".to_owned(), "o".to_owned()),
        dimension: "currency_amount".to_owned(),
        scale: 12,
        precision: 15,
    };
    assert!(validate_fixed_output(FixedDecimal::from_scaled(123_456_789_012_345), &registered).is_ok());
    assert!(validate_fixed_output(FixedDecimal::from_scaled(1_234_567_890_123_456), &registered).is_err());
    let value = DecimalValue::new(-12_345, 2, unit()).unwrap();
    let owner = OwnerRef::new("t".to_owned(), "o".to_owned());
    assert!(validate_decimal_unit(&value, &registered, "currency_amount", &owner).is_ok());
    assert!(validate_decimal_unit(&value, &registered, "rate", &owner).is_err());
    let other = OwnerRef::new("t".to_owned(), "x".to_owned());
    assert!(validate_decimal_unit(&value, &registered, "currency_amount", &other).is_err());
}

#[test]
fn settlement_needs_an_open_session() {
    let time = Some(LocalTime { hour: 9, minute: 0, second: 0, nanos: 0 });
    let sessions = [
        CalendarSession { local_date: date(2025, 3, 14), open_local_time: time, close_local_time: time },
        CalendarSession { local_date: date(2025, 3, 15), open_local_time: None, close_local_time: None },
    ];
    assert!(require_open_settlement(&sessions, date(2025, 3, 14)).is_ok());
    assert!(require_open_settlement(&sessions, date(2025, 3, 15)).is_err());
    assert!(require_open_settlement(&sessions, date(2025, 3, 16)).is_err());
}

#[test]
fn tenors_move_by_months_or_days() {
    let as_of = date(2024, 1, 31);
    assert_eq!(tenor_date(as_of, "P1M"), Ok(date(2024, 2, 29)));
    assert_eq!(tenor_date(as_of, "P2Y"), Ok(date(2026, 1, 31)));
    assert_eq!(tenor_date(as_of, "P10D"), Ok(date(2024, 2, 10)));
    assert_eq!(tenor_date(as_of, "P+3M"), Ok(date(2024, 4, 30)));
    let refused = Err(ApplicationError::new(ApplicationErrorCategory::ValidationFailed, false));
    assert_eq!(tenor_date(as_of, "P1W"), refused);
    assert_eq!(tenor_date(as_of, "PY"), refused);
    assert_eq!(tenor_date(as_of, "Y"), refused);
    assert_eq!(tenor_date(as_of, "P400000000Y"), refused);
}

fn at(seconds: i64) -> MarketTime {
    MarketTime { instant: Instant { seconds, nanos: 0 }, market_timezone: "Asia/Shanghai".to_owned(), local_trading_date: date(2025, 3, 14) }
}

fn command() -> KeyRateCommandFacts {
    KeyRateCommandFacts { position_snapshot_id: "pos".to_owned(), curve_snapshot_id: "curve".to_owned(), valuation_at: at(1_000), knowledge_at: at(2_000) }
}

#[test]
fn loaded_records_are_checked_against_the_command() {
    let lineage = ApplicationErrorCategory::LineageIncomplete;
    assert!(validate_position_snapshot(Ok(()), &"pos".to_owned(), &at(1_500), &command()).is_ok());
    assert_eq!(validate_position_snapshot(Ok(()), &"pos".to_owned(), &at(2_500), &command()).unwrap_err().category(), lineage);
    let denied = Err(ApplicationError::new(ApplicationErrorCategory::Forbidden, false));
    assert_eq!(validate_position_snapshot(denied, &"pos".to_owned(), &at(1_500), &command()), denied);
    let owner = OwnerRef::new("t".to_owned(), "o".to_owned());
    let curve = CurveSnapshotFacts {
        id: "curve".to_owned(),
        owner: owner.clone(),
        as_of: at(1_000),
        visible_at: Some(at(1_200)),
        curve_family_id: Some("cgb".to_owned()),
        point_schema: "points.v1".to_owned(),
    };
    assert!(validate_curve_snapshot(Ok(()), &curve, &owner, &command(), "points.v1").is_ok());
    assert_eq!(validate_curve_snapshot(Ok(()), &curve, &owner, &command(), "points.v2").unwrap_err().category(), lineage);
    let hidden = CurveSnapshotFacts { visible_at: None, ..curve.clone() };
    assert!(validate_curve_snapshot(Ok(()), &hidden, &owner, &command(), "points.v1").is_err());
    let point = CurvePointFacts { curve_node_id: "1Y".to_owned(), curve_node_content_hash: vec![7], yield_unit: UnitRef::new("pct".to_owned(), 1) };
    let node = CurveNodeFacts { curve_node_id: "1Y".to_owned(), content_hash: vec![7], curve_family_id: "cgb".to_owned(), factor_unit: UnitRef::new("pct".to_owned(), 1) };
    assert!(validate_node(&curve.curve_family_id, &point, &node).is_ok());
    assert_eq!(validate_node(&None, &point, &node).unwrap_err().category(), lineage);
    let factor = FactorDefinitionFacts { factor_unit: UnitRef::new("pct".to_owned(), 1), bump_unit: UnitRef::new("pct".to_owned(), 1), rebuilds_curve: true, excludes_second_order: true };
    assert!(validate_factor(&point, &node, &factor).is_ok());
    let partial = FactorDefinitionFacts { excludes_second_order: false, ..factor };
    assert_eq!(validate_factor(&point, &node, &partial).unwrap_err().category(), ApplicationErrorCategory::ValidationFailed);
}

#[test]
fn key_rate_trace_is_the_hex_of_sixteen_digest_bytes() {
    let mut bytes = b"poscurve".to_vec();
    bytes.extend_from_slice(&2_000i64.to_be_bytes());
    let digest = sha2::Sha256::digest(&bytes);
    let expected: String = digest[..16].iter().map(|byte| format!("{byte:02x}")).collect();
    assert_eq!(key_rate_trace_token(&command()), expected);
}
