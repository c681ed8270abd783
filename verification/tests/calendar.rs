use ficant_application::calendar::{CalendarSession, LocalTime, expected_sessions, period_window};
use ficant_application::error::ApplicationErrorCategory;
use ficant_application::primitives::{Instant, LocalDate, MarketTime, OwnerRef};
use ficant_application::workbench::PortfolioPeriodPreset;

fn date(year: i32, month: u32, day: u32) -> LocalDate {
    LocalDate { year, month, day }
}

fn shanghai(seconds: i64, local: LocalDate) -> MarketTime {
    MarketTime { instant: Instant { seconds, nanos: 0 }, market_timezone: "Asia/Shanghai".to_owned(), local_trading_date: local }
}

// 2025-03-14T07:00:00Z, which is 15:00 in Shanghai.
const VALUATION: i64 = 1_741_935_600;

#[test]
fn year_to_date_starts_at_local_new_year() {
    let valuation = shanghai(VALUATION, date(2025, 3, 14));
    let (start, end) = period_window(&valuation, PortfolioPeriodPreset::YearToDate).unwrap();
    assert_eq!(start.instant, Instant { seconds: 1_735_660_800, nanos: 0 });
    assert_eq!(start.local_trading_date, date(2025, 1, 1));
    assert_eq!(start.market_timezone, "Asia/Shanghai");
    assert_eq!(end, valuation);
}

#[test]
fn fixed_periods_step_back_whole_days() {
    let valuation = shanghai(VALUATION, date(2025, 3, 14));
    let (start, _) = period_window(&valuation, PortfolioPeriodPreset::OneDay).unwrap();
    assert_eq!(start.instant.seconds, VALUATION - 86_400);
    assert_eq!(start.local_trading_date, date(2025, 3, 13));
    let (start, _) = period_window(&valuation, PortfolioPeriodPreset::ThirtyDays).unwrap();
    assert_eq!(start.local_trading_date, date(2025, 2, 12));
    let (start, _) = period_window(&valuation, PortfolioPeriodPreset::OneYear).unwrap();
    assert_eq!(start.local_trading_date, date(2024, 3, 14));
}

#[test]
fn unknown_zones_are_invalid() {
    let mut valuation = shanghai(VALUATION, date(2025, 3, 14));
    valuation.market_timezone = "Mars/Olympus".to_owned();
    assert_eq!(
        period_window(&valuation, PortfolioPeriodPreset::SevenDays).unwrap_err().category(),
        ApplicationErrorCategory::ValidationFailed
    );
}

fn open() -> Option<LocalTime> {
    Some(LocalTime { hour: 9, minute: 30, second: 0, nanos: 0 })
}

fn close(hour: u32) -> Option<LocalTime> {
    Some(LocalTime { hour, minute: 0, second: 0, nanos: 0 })
}

#[test]
fn sessions_of_the_period_close_at_their_local_time() {
    let owner = OwnerRef::new("t".to_owned(), "o".to_owned());
    let zone = "Asia/Shanghai".to_owned();
    let from = shanghai(VALUATION - 2 * 86_400, date(2025, 3, 12));
    let to = shanghai(VALUATION, date(2025, 3, 14));
    let sessions = [
        CalendarSession { local_date: date(2025, 3, 11), open_local_time: open(), close_local_time: close(15) },
        CalendarSession { local_date: date(2025, 3, 12), open_local_time: open(), close_local_time: close(15) },
        CalendarSession { local_date: date(2025, 3, 13), open_local_time: None, close_local_time: None },
        CalendarSession { local_date: date(2025, 3, 14), open_local_time: open(), close_local_time: close(15) },
        CalendarSession { local_date: date(2025, 3, 15), open_local_time: open(), close_local_time: close(15) },
    ];
    let effective = (Instant { seconds: 0, nanos: 0 }, Instant { seconds: 2_000_000_000, nanos: 0 });
    let closes = expected_sessions(&owner, &owner, &zone, &from, &to, effective.0, effective.1, &sessions).unwrap();
    assert_eq!(closes.len(), 2);
    assert_eq!(closes[0].instant.seconds, VALUATION - 2 * 86_400);
    assert_eq!(closes[1].instant.seconds, VALUATION);
    assert_eq!(closes[1].local_trading_date, date(2025, 3, 14));

    let other = OwnerRef::new("t".to_owned(), "x".to_owned());
    assert_eq!(
        expected_sessions(&other, &owner, &zone, &from, &to, effective.0, effective.1, &sessions).unwrap_err().category(),
        ApplicationErrorCategory::LineageIncomplete
    );
    assert_eq!(
        expected_sessions(&owner, &owner, &zone, &from, &to, effective.0, effective.1, &sessions[3..]).unwrap_err().category(),
        ApplicationErrorCategory::ValidationFailed
    );
    let expired = Instant { seconds: VALUATION, nanos: 0 };
    assert!(expected_sessions(&owner, &owner, &zone, &from, &to, effective.0, expired, &sessions).is_err());
}

#[test]
fn skipped_local_times_have_no_instant() {
    let owner = OwnerRef::new("t".to_owned(), "o".to_owned());
    let zone = "America/New_York".to_owned();
    let at = |seconds, local| MarketTime { instant: Instant { seconds, nanos: 0 }, market_timezone: zone.clone(), local_trading_date: local };
    // 2025-03-08 and 2025-03-10 around the 2025-03-09 spring-forward gap.
    let from = at(1_741_392_000, date(2025, 3, 8));
    let to = at(1_741_651_200, date(2025, 3, 10));
    let gap = [
        CalendarSession { local_date: date(2025, 3, 8), open_local_time: open(), close_local_time: close(16) },
        CalendarSession { local_date: date(2025, 3, 9), open_local_time: open(), close_local_time: Some(LocalTime { hour: 2, minute: 30, second: 0, nanos: 0 }) },
        CalendarSession { local_date: date(2025, 3, 10), open_local_time: open(), close_local_time: close(16) },
    ];
    let effective = (Instant { seconds: 0, nanos: 0 }, Instant { seconds: 2_000_000_000, nanos: 0 });
    assert_eq!(
        expected_sessions(&owner, &owner, &zone, &from, &to, effective.0, effective.1, &gap).unwrap_err().category(),
        ApplicationErrorCategory::ValidationFailed
    );
}

#[test]
fn calendar_days_split_into_closed_days_and_working_weekends() {
    let open = Some(LocalTime { hour: 9, minute: 30, second: 0, nanos: 0 });
    let close = Some(LocalTime { hour: 15, minute: 0, second: 0, nanos: 0 });
    let day = |year: i32, month: u32, day: u32| LocalDate { year, month, day };
    let sessions = vec![
        CalendarSession { local_date: day(2025, 3, 14), open_local_time: open, close_local_time: close },
        CalendarSession { local_date: day(2025, 3, 15), open_local_time: open, close_local_time: close },
        CalendarSession { local_date: day(2025, 3, 16), open_local_time: None, close_local_time: None },
        CalendarSession { local_date: day(2025, 3, 17), open_local_time: None, close_local_time: None },
        CalendarSession { local_date: day(2000, 2, 27), open_local_time: open, close_local_time: close },
        CalendarSession { local_date: day(-1, 12, 31), open_local_time: open, close_local_time: close },
    ];
    let (closed, weekends) = ficant_application::calendar::calendar_day_split(&sessions);
    assert_eq!(closed, vec![day(2025, 3, 16), day(2025, 3, 17)]);
    assert_eq!(weekends, vec![day(2025, 3, 15), day(2000, 2, 27)]);
}
