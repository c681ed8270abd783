use ficant_application::error::ApplicationErrorCategory;
use ficant_application::decimal::UnitRef;
use ficant_application::overview::NormalizedPortfolioContext;
use ficant_application::performance::{
    BenchmarkLevelFacts, PortfolioPerformanceCoverage, PortfolioPerformanceEvidenceKind,
    evidence_kind_code, match_benchmark_levels,
};
use ficant_application::primitives::{Instant, LineageRef, LocalDate, MarketTime, OwnerRef, VersionRef};

#[test]
fn complete_coverage_counts_every_member_and_session() {
    let coverage = PortfolioPerformanceCoverage::complete(21, 3).unwrap();
    assert_eq!(coverage.expected_session_count(), 21);
    assert_eq!(coverage.observed_session_count(), 21);
    assert_eq!(coverage.expected_portfolio_observation_count(), 63);
    assert_eq!(coverage.observed_portfolio_observation_count(), 63);
    assert_eq!(coverage.expected_benchmark_observation_count(), 21);
    assert_eq!(coverage.observed_benchmark_observation_count(), 21);
    assert_eq!(
        PortfolioPerformanceCoverage::complete(usize::MAX, 2).unwrap_err().category(),
        ApplicationErrorCategory::ValidationFailed
    );
}

#[test]
fn evidence_kinds_have_stable_codes() {
    assert_eq!(evidence_kind_code(PortfolioPerformanceEvidenceKind::Book), 1);
    assert_eq!(evidence_kind_code(PortfolioPerformanceEvidenceKind::Unit), 8);
    assert_eq!(evidence_kind_code(PortfolioPerformanceEvidenceKind::BenchmarkLevelSnapshot), 11);
}

fn session(day: u32, seconds: i64) -> MarketTime {
    MarketTime { instant: Instant { seconds, nanos: 0 }, market_timezone: "Asia/Shanghai".to_owned(), local_trading_date: LocalDate { year: 2025, month: 3, day } }
}

fn benchmark() -> LineageRef {
    LineageRef::new("bench".to_owned(), Some(1), Some(b"bench".to_vec()))
}

fn level(day: u32, seconds: i64) -> BenchmarkLevelFacts {
    BenchmarkLevelFacts {
        owner: OwnerRef::new("t".to_owned(), "o".to_owned()),
        subject_ref: VersionRef::new("subject".to_owned(), 1),
        benchmark: benchmark(),
        level_unit: UnitRef::new("index".to_owned(), 1),
        valuation_at: session(day, seconds),
        visible_at: session(day, seconds + 60),
    }
}

fn performance_context() -> NormalizedPortfolioContext {
    NormalizedPortfolioContext {
        owner: OwnerRef::new("t".to_owned(), "o".to_owned()),
        subject_ref: VersionRef::new("subject".to_owned(), 1),
        valuation_at: session(14, 3_000),
        knowledge_at: session(14, 10_000),
        period_from: session(12, 1_000),
        period_to: session(14, 3_000),
        member_portfolios: vec![],
        currency_unit: UnitRef::new("cny".to_owned(), 1),
    }
}

#[test]
fn benchmark_levels_join_their_sessions() {
    let sessions = vec![session(12, 1_000), session(13, 2_000), session(14, 3_000)];
    let levels = vec![level(14, 3_000), level(12, 1_000), level(13, 2_000)];
    let unit = UnitRef::new("index".to_owned(), 1);
    assert_eq!(match_benchmark_levels(&performance_context(), &benchmark(), &sessions, &levels, &unit), Ok(vec![1, 2, 0]));
    let short = &levels[..2];
    assert_eq!(match_benchmark_levels(&performance_context(), &benchmark(), &sessions, short, &unit).unwrap_err().category(), ApplicationErrorCategory::LineageIncomplete);
    let mut shifted = levels.clone();
    shifted[0].valuation_at.instant.seconds = 3_001;
    assert!(match_benchmark_levels(&performance_context(), &benchmark(), &sessions, &shifted, &unit).is_err());
    let mut twice = levels.clone();
    twice[0] = level(12, 1_000);
    assert!(match_benchmark_levels(&performance_context(), &benchmark(), &sessions, &twice, &unit).is_err());
    let mut late = levels.clone();
    late[1].visible_at = session(14, 10_001);
    assert!(match_benchmark_levels(&performance_context(), &benchmark(), &sessions, &late, &unit).is_err());
    let other_unit = UnitRef::new("pct".to_owned(), 1);
    assert!(match_benchmark_levels(&performance_context(), &benchmark(), &sessions, &levels, &other_unit).is_err());
}
