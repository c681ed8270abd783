use vstd::prelude::*;
use chrono::{Datelike, TimeZone};

use crate::error::{ApplicationErrorCategory, ApplicationResult, failure, lineage, validation};
use crate::primitives::{Instant, LocalDate, MarketTime, OwnerRef, instant_before, instant_less};
use crate::workbench::PortfolioPeriodPreset;

verus! {

/// A local time of day.
#[derive(Clone, Copy, Debug, PartialEq, Eq, Structural)]
pub struct LocalTime {
    pub hour: u32,
    pub minute: u32,
    pub second: u32,
    pub nanos: u32,
}

/// One trading session of a calendar: its local date and, when it trades, its opening and
/// closing times.
#[derive(Clone, Copy, Debug, PartialEq, Eq, Structural)]
pub struct CalendarSession {
    pub local_date: LocalDate,
    pub open_local_time: Option<LocalTime>,
    pub close_local_time: Option<LocalTime>,
}

/// Whether the time-zone database that `chrono-tz` bundles knows a zone name.
pub uninterp spec fn timezone_known(name: Seq<char>) -> bool;

/// The local calendar date of an instant in a named zone, as `chrono-tz` computes it.
pub uninterp spec fn local_date_in(timezone: Seq<char>, instant: Instant) -> Option<LocalDate>;

/// The instant of a local date and time in a named zone when that local time occurs exactly
/// once there, as `chrono-tz` computes it.
pub uninterp spec fn local_instant_in(timezone: Seq<char>, date: LocalDate, time: LocalTime) -> Option<
    Instant,
>;

/// `<chrono_tz::Tz as FromStr>::from_str` succeeds: the name is in the bundled database.
#[verifier::external_body]
fn known_timezone(name: &str) -> (known: bool)
    ensures
        known == timezone_known(name@),
{
    name.parse::<chrono_tz::Tz>().is_ok()
}

/// `DateTime::with_timezone` into the named zone, then its local date; nothing when the zone
/// is unknown or `chrono` cannot represent the instant. `date_naive` panics when the zone's
/// offset pushes the local time outside `chrono`'s date range, so the instant must lie at least
/// one day inside that range; no zone's offset reaches a day.
#[verifier::external_body]
fn local_date_at(timezone: &str, instant: Instant) -> (date: Option<LocalDate>)
    requires
        inside_local_range(instant),
    ensures
        date == local_date_in(timezone@, instant),
        !timezone_known(timezone@) ==> date is None,
{
    let zone = timezone.parse::<chrono_tz::Tz>().ok()?;
    let utc = chrono::DateTime::from_timestamp(instant.seconds, instant.nanos)?;
    let local = utc.with_timezone(&zone).date_naive();
    Some(LocalDate { year: local.year(), month: local.month(), day: local.day() })
}

/// `TimeZone::from_local_datetime` in the named zone, kept only when `single`; nothing when the
/// zone is unknown, the date or time does not exist, or the local time is skipped or repeated.
#[verifier::external_body]
fn local_instant_at(timezone: &str, date: LocalDate, time: LocalTime) -> (instant: Option<Instant>)
    ensures
        instant == local_instant_in(timezone@, date, time),
        !timezone_known(timezone@) ==> instant is None,
{
    let zone = timezone.parse::<chrono_tz::Tz>().ok()?;
    let naive = chrono::NaiveDate::from_ymd_opt(date.year, date.month, date.day)?.and_hms_nano_opt(
        time.hour, time.minute, time.second, time.nanos)?;
    let utc = zone.from_local_datetime(&naive).single()?.with_timezone(&chrono::Utc);
    Some(Instant { seconds: utc.timestamp(), nanos: utc.timestamp_subsec_nanos() })
}

/// The earliest instant `chrono` represents, 1 January of year -262143, in Unix seconds.
pub open spec fn earliest_instant_seconds() -> int {
    -8334601315200
}

/// The latest instant `chrono` represents, the last second of 31 December of year 262142, in
/// Unix seconds.
pub open spec fn latest_instant_seconds() -> int {
    8210266876799
}

/// An instant at least one day inside `chrono`'s range, so that its local time in any zone is
/// representable.
pub open spec fn inside_local_range(instant: Instant) -> bool {
    earliest_instant_seconds() + 86400 <= instant.seconds <= latest_instant_seconds() - 86400
}

fn within_local_range(instant: Instant) -> (inside: bool)
    ensures
        inside == inside_local_range(instant),
{
    -8334601315200 + 86400 <= instant.seconds && instant.seconds <= 8210266876799 - 86400
}

/// Length of each fixed-length period, in days.
pub open spec fn period_days(preset: PortfolioPeriodPreset) -> int {
    match preset {
        PortfolioPeriodPreset::OneDay => 1,
        PortfolioPeriodPreset::SevenDays => 7,
        PortfolioPeriodPreset::ThirtyDays => 30,
        PortfolioPeriodPreset::OneYear => 365,
        PortfolioPeriodPreset::YearToDate => 0,
    }
}

/// Local midnight.
pub open spec fn midnight() -> LocalTime {
    LocalTime { hour: 0, minute: 0, second: 0, nanos: 0 }
}

/// Where a reporting period starts: a fixed number of days before the valuation instant, or
/// local midnight of 1 January of the valuation's trading year.
pub open spec fn period_start(valuation_at: MarketTime, preset: PortfolioPeriodPreset) -> Option<Instant> {
    match preset {
        PortfolioPeriodPreset::YearToDate => local_instant_in(
            valuation_at.market_timezone@,
            LocalDate { year: valuation_at.local_trading_date.year, month: 1, day: 1 },
            midnight(),
        ),
        _ => Some(
            Instant {
                seconds: (valuation_at.instant.seconds - period_days(preset) * 86400) as i64,
                nanos: valuation_at.instant.nanos,
            },
        ),
    }
}

/// The reporting window of a preset ending at the valuation time: validation failure when the
/// zone is unknown, the start has no single local time or date, or a year-to-date start lies
/// within a day of the ends of `chrono`'s range.
pub fn period_window(valuation_at: &MarketTime, preset: PortfolioPeriodPreset) -> (result:
    ApplicationResult<(MarketTime, MarketTime)>)
    requires
        valuation_at.instant.seconds - period_days(preset) * 86400 >= earliest_instant_seconds() + 86400,
        valuation_at.instant.seconds <= latest_instant_seconds() - 86400,
    ensures
        !timezone_known(valuation_at.market_timezone@) ==> result is Err,
        result is Ok <==> (timezone_known(valuation_at.market_timezone@) && (period_start(
            *valuation_at,
            preset,
        ) matches Some(start) && inside_local_range(start) && local_date_in(
            valuation_at.market_timezone@,
            start,
        ) is Some)),
        result matches Ok((start, end)) ==> {
            &&& Some(start.instant) == period_start(*valuation_at, preset)
            &&& start.market_timezone == valuation_at.market_timezone
            &&& local_date_in(valuation_at.market_timezone@, start.instant) == Some(
                start.local_trading_date,
            )
            &&& end == *valuation_at
        },
        result matches Err(e) ==> e == failure(ApplicationErrorCategory::ValidationFailed),
{
    let zone = valuation_at.market_timezone.as_str();
    if !known_timezone(zone) {
        return Err(validation());
    }
    let start_instant = match preset {
        PortfolioPeriodPreset::YearToDate => {
            let first_day = LocalDate { year: valuation_at.local_trading_date.year, month: 1, day: 1 };
            match local_instant_at(zone, first_day, LocalTime { hour: 0, minute: 0, second: 0, nanos: 0 }) {
                Some(instant) => instant,
                None => {
                    return Err(validation());
                },
            }
        },
        PortfolioPeriodPreset::OneDay => Instant {
            seconds: valuation_at.instant.seconds - 86400,
            nanos: valuation_at.instant.nanos,
        },
        PortfolioPeriodPreset::SevenDays => Instant {
            seconds: valuation_at.instant.seconds - 7 * 86400,
            nanos: valuation_at.instant.nanos,
        },
        PortfolioPeriodPreset::ThirtyDays => Instant {
            seconds: valuation_at.instant.seconds - 30 * 86400,
            nanos: valuation_at.instant.nanos,
        },
        PortfolioPeriodPreset::OneYear => Instant {
            seconds: valuation_at.instant.seconds - 365 * 86400,
            nanos: valuation_at.instant.nanos,
        },
    };
    if !within_local_range(start_instant) {
        return Err(validation());
    }
    let local_date = match local_date_at(zone, start_instant) {
        Some(date) => date,
        None => {
            return Err(validation());
        },
    };
    let start = MarketTime {
        instant: start_instant,
        market_timezone: valuation_at.market_timezone.clone(),
        local_trading_date: local_date,
    };
    Ok((start, valuation_at.duplicate()))
}

/// Chronological order of local dates.
pub open spec fn date_less(a: LocalDate, b: LocalDate) -> bool {
    a.year < b.year || (a.year == b.year && (a.month < b.month || (a.month == b.month && a.day
        < b.day)))
}

pub(crate) fn date_before(a: LocalDate, b: LocalDate) -> (earlier: bool)
    ensures
        earlier == date_less(a, b),
{
    a.year < b.year || (a.year == b.year && (a.month < b.month || (a.month == b.month && a.day
        < b.day)))
}

/// A session counts toward a period when its date lies in the period and it has a close.
pub open spec fn session_counts(session: CalendarSession, from: LocalDate, to: LocalDate) -> bool {
    !date_less(session.local_date, from) && !date_less(to, session.local_date)
        && session.close_local_time is Some
}

/// The closing times of the counted sessions, in calendar order, or nothing when one of them
/// has no single instant in the zone.
pub open spec fn session_closes(
    timezone: String,
    sessions: Seq<CalendarSession>,
    from: LocalDate,
    to: LocalDate,
) -> Option<Seq<MarketTime>>
    decreases sessions.len(),
{
    if sessions.len() == 0 {
        Some(Seq::empty())
    } else {
        let last = sessions.last();
        match session_closes(timezone, sessions.drop_last(), from, to) {
            None => None,
            Some(before) => if !session_counts(last, from, to) {
                Some(before)
            } else {
                match local_instant_in(timezone@, last.local_date, last.close_local_time->0) {
                    None => None,
                    Some(instant) => Some(
                        before.push(
                            MarketTime {
                                instant,
                                market_timezone: timezone,
                                local_trading_date: last.local_date,
                            },
                        ),
                    ),
                }
            },
        }
    }
}

/// A calendar can time a period when it belongs to the context's owner, shares the period's
/// zone, and is in effect from the period's start through its end.
pub open spec fn calendar_covers(
    calendar_owner: OwnerRef,
    context_owner: OwnerRef,
    calendar_timezone: Seq<char>,
    period_from: MarketTime,
    period_to: MarketTime,
    effective_from: Instant,
    effective_to: Instant,
) -> bool {
    &&& calendar_owner.tenant_id@ == context_owner.tenant_id@
    &&& calendar_owner.owner_id@ == context_owner.owner_id@
    &&& period_from.market_timezone@ == calendar_timezone
    &&& period_to.market_timezone@ == calendar_timezone
    &&& !instant_less(period_from.instant, effective_from)
    &&& instant_less(period_to.instant, effective_to)
}

/// The closing times of the trading sessions of a period: incomplete lineage when the calendar
/// does not cover the period, validation failure for an unknown zone, a close without a single
/// instant, or fewer than two sessions.
pub fn expected_sessions(
    calendar_owner: &OwnerRef,
    context_owner: &OwnerRef,
    calendar_timezone: &String,
    period_from: &MarketTime,
    period_to: &MarketTime,
    effective_from: Instant,
    effective_to: Instant,
    sessions: &[CalendarSession],
) -> (result: ApplicationResult<Vec<MarketTime>>)
    ensures
        !calendar_covers(
            *calendar_owner,
            *context_owner,
            calendar_timezone@,
            *period_from,
            *period_to,
            effective_from,
            effective_to,
        ) ==> result == Err::<Vec<MarketTime>, _>(failure(ApplicationErrorCategory::LineageIncomplete)),
        calendar_covers(
            *calendar_owner,
            *context_owner,
            calendar_timezone@,
            *period_from,
            *period_to,
            effective_from,
            effective_to,
        ) ==> (result is Ok <==> (timezone_known(calendar_timezone@) && (session_closes(
            *calendar_timezone,
            sessions@,
            period_from.local_trading_date,
            period_to.local_trading_date,
        ) matches Some(closes) && closes.len() >= 2))),
        result matches Ok(closes) ==> Some(closes@) == session_closes(
            *calendar_timezone,
            sessions@,
            period_from.local_trading_date,
            period_to.local_trading_date,
        ),
        result matches Err(e) ==> e == failure(ApplicationErrorCategory::LineageIncomplete) || e
            == failure(ApplicationErrorCategory::ValidationFailed),
{
    if !calendar_owner.same_as(context_owner) || !period_from.market_timezone.eq(calendar_timezone)
        || !period_to.market_timezone.eq(calendar_timezone) || instant_before(
        period_from.instant,
        effective_from,
    ) || !instant_before(period_to.instant, effective_to) {
        return Err(lineage());
    }
    let zone = calendar_timezone.as_str();
    if !known_timezone(zone) {
        return Err(validation());
    }
    let from = period_from.local_trading_date;
    let to = period_to.local_trading_date;
    let mut closes: Vec<MarketTime> = Vec::new();
    let mut i: usize = 0;
    while i < sessions.len()
        invariant
            i <= sessions@.len(),
            zone@ == calendar_timezone@,
            timezone_known(calendar_timezone@),
            from == period_from.local_trading_date,
            to == period_to.local_trading_date,
            calendar_covers(
                *calendar_owner,
                *context_owner,
                calendar_timezone@,
                *period_from,
                *period_to,
                effective_from,
                effective_to,
            ),
            session_closes(*calendar_timezone, sessions@.subrange(0, i as int), from, to) == Some(
                closes@,
            ),
        decreases sessions.len() - i,
    {
        let session = sessions[i];
        let ghost prefix = sessions@.subrange(0, i as int);
        let ghost next = sessions@.subrange(0, i + 1);
        assert(next.drop_last() =~= prefix);
        assert(next.last() == session);
        let counted = !date_before(session.local_date, from) && !date_before(to, session.local_date);
        match session.close_local_time {
            Some(close) => {
                if counted {
                    match local_instant_at(zone, session.local_date, close) {
                        Some(instant) => {
                            closes.push(
                                MarketTime {
                                    instant,
                                    market_timezone: calendar_timezone.clone(),
                                    local_trading_date: session.local_date,
                                },
                            );
                        },
                        None => {
                            proof {
                                assert(session_counts(session, from, to));
                                assert(session_closes(*calendar_timezone, next, from, to) is None);
                                lemma_session_closes_stays_none(
                                    *calendar_timezone,
                                    sessions@,
                                    from,
                                    to,
                                    i + 1,
                                );
                            }
                            return Err(validation());
                        },
                    }
                }
            },
            None => {},
        }
        i = i + 1;
    }
    assert(sessions@.subrange(0, sessions@.len() as int) =~= sessions@);
    if closes.len() < 2 {
        return Err(validation());
    }
    Ok(closes)
}

/// Once the closes of a prefix are missing, so are those of every longer prefix.
proof fn lemma_session_closes_stays_none(
    timezone: String,
    sessions: Seq<CalendarSession>,
    from: LocalDate,
    to: LocalDate,
    n: int,
)
    requires
        0 <= n <= sessions.len(),
        session_closes(timezone, sessions.subrange(0, n), from, to) is None,
    ensures
        session_closes(timezone, sessions, from, to) is None,
    decreases sessions.len() - n,
{
    if n < sessions.len() {
        let next = sessions.subrange(0, n + 1);
        assert(next.drop_last() =~= sessions.subrange(0, n));
        lemma_session_closes_stays_none(timezone, sessions, from, to, n + 1);
    } else {
        assert(sessions.subrange(0, n) =~= sessions);
    }
}

/// Days from a fixed proleptic Gregorian origin to a date moved forward by 400000 years. Moving
/// by a whole number of 400-year cycles keeps the count non-negative for every date `chrono`
/// represents and changes it by a whole number of weeks.
pub open spec fn shifted_day_count(date: LocalDate) -> int {
    let y = date.year + 400000 - if date.month <= 2 { 1int } else { 0int };
    let era = y / 400;
    let yoe = y % 400;
    let mp = if date.month > 2 { date.month - 3 } else { date.month + 9 };
    let doy = (153 * mp + 2) / 5 + date.day - 1;
    let doe = yoe * 365 + yoe / 4 - yoe / 100 + doy;
    era * 146097 + doe
}

/// The day of the week of a date, counted from Monday as zero, as `chrono`'s `weekday` gives it
/// for a valid date.
pub open spec fn weekday_from_monday(date: LocalDate) -> int {
    (shifted_day_count(date) + 2) % 7
}

/// A Saturday or a Sunday.
pub open spec fn is_weekend(date: LocalDate) -> bool {
    weekday_from_monday(date) >= 5
}

fn weekend(date: LocalDate) -> (weekend_day: bool)
    requires
        date.year >= -262144,
        1 <= date.month <= 12,
        1 <= date.day <= 31,
    ensures
        weekend_day == is_weekend(date),
{
    let shifted: i64 = date.year as i64 + 400000;
    let y: i64 = if date.month <= 2 { shifted - 1 } else { shifted };
    let era: i64 = y / 400;
    let yoe: i64 = y % 400;
    let month = date.month as i64;
    let mp: i64 = if month > 2 { month - 3 } else { month + 9 };
    let doy: i64 = (153 * mp + 2) / 5 + date.day as i64 - 1;
    let doe: i64 = yoe * 365 + yoe / 4 - yoe / 100 + doy;
    let days: i64 = era * 146097 + doe;
    (days + 2) % 7 >= 5
}

/// The non-business days of a calendar (sessions that never open) and its working weekends
/// (Saturday or Sunday sessions that open), each in session order.
pub fn calendar_day_split(sessions: &[CalendarSession]) -> (split: (Vec<LocalDate>, Vec<LocalDate>))
    requires
        forall|i: int| 0 <= i < sessions@.len() ==> {
            let d = (#[trigger] sessions@[i]).local_date;
            d.year >= -262144 && 1 <= d.month <= 12 && 1 <= d.day <= 31
        },
    ensures
        split.0@ == sessions@.filter(|s: CalendarSession| s.open_local_time is None).map_values(|s: CalendarSession| s.local_date),
        split.1@ == sessions@.filter(|s: CalendarSession| s.open_local_time is Some && is_weekend(s.local_date)).map_values(|s: CalendarSession| s.local_date),
{
    let mut closed: Vec<LocalDate> = Vec::new();
    let mut weekends: Vec<LocalDate> = Vec::new();
    let mut i: usize = 0;
    while i < sessions.len()
        invariant
            i <= sessions@.len(),
            forall|k: int| 0 <= k < sessions@.len() ==> {
                let d = (#[trigger] sessions@[k]).local_date;
                d.year >= -262144 && 1 <= d.month <= 12 && 1 <= d.day <= 31
            },
            closed@ == sessions@.subrange(0, i as int).filter(|s: CalendarSession| s.open_local_time is None).map_values(|s: CalendarSession| s.local_date),
            weekends@ == sessions@.subrange(0, i as int).filter(|s: CalendarSession| s.open_local_time is Some && is_weekend(s.local_date)).map_values(|s: CalendarSession| s.local_date),
        decreases sessions@.len() - i,
    {
        let session = sessions[i];
        let ghost prefix = sessions@.subrange(0, i as int);
        let ghost next = sessions@.subrange(0, i + 1);
        assert(next == prefix.push(session));
        proof {
            prefix.lemma_filter_push(session, |s: CalendarSession| s.open_local_time is None);
            prefix.lemma_filter_push(
                session,
                |s: CalendarSession| s.open_local_time is Some && is_weekend(s.local_date),
            );
        }
        if session.open_local_time.is_none() {
            closed.push(session.local_date);
        } else if weekend(session.local_date) {
            weekends.push(session.local_date);
        }
        assert(closed@ =~= next.filter(|s: CalendarSession| s.open_local_time is None).map_values(|s: CalendarSession| s.local_date));
        assert(weekends@ =~= next.filter(|s: CalendarSession| s.open_local_time is Some && is_weekend(s.local_date)).map_values(|s: CalendarSession| s.local_date));
        i = i + 1;
    }
    assert(sessions@.subrange(0, sessions@.len() as int) =~= sessions@);
    (closed, weekends)
}

} // verus!
