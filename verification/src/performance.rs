use vstd::prelude::*;

use crate::bytes::bytes_equal;
use crate::decimal::UnitRef;
use crate::error::{ApplicationErrorCategory, ApplicationResult, failure, lineage, validation};
use crate::evidence::{market_times_equal, same_time};
use crate::overview::NormalizedPortfolioContext;
use crate::primitives::{LineageRef, LocalDate, MarketTime, OwnerRef, VersionRef, instant_before, instant_less};

verus! {

/// The kind of object a performance figure rests on.
#[derive(Clone, Copy, Debug, PartialEq, Eq, Structural, PartialOrd, Ord)]
pub enum PortfolioPerformanceEvidenceKind {
    Book,
    PortfolioGroup,
    Portfolio,
    Benchmark,
    PortfolioMetricConvention,
    PortfolioPerformanceConvention,
    Calendar,
    Unit,
    PortfolioValuationSnapshot,
    PositionSnapshot,
    BenchmarkLevelSnapshot,
}

/// The stable wire code of each evidence kind, one to eleven in declaration order.
pub open spec fn evidence_kind_code_of(kind: PortfolioPerformanceEvidenceKind) -> u8 {
    match kind {
        PortfolioPerformanceEvidenceKind::Book => 1,
        PortfolioPerformanceEvidenceKind::PortfolioGroup => 2,
        PortfolioPerformanceEvidenceKind::Portfolio => 3,
        PortfolioPerformanceEvidenceKind::Benchmark => 4,
        PortfolioPerformanceEvidenceKind::PortfolioMetricConvention => 5,
        PortfolioPerformanceEvidenceKind::PortfolioPerformanceConvention => 6,
        PortfolioPerformanceEvidenceKind::Calendar => 7,
        PortfolioPerformanceEvidenceKind::Unit => 8,
        PortfolioPerformanceEvidenceKind::PortfolioValuationSnapshot => 9,
        PortfolioPerformanceEvidenceKind::PositionSnapshot => 10,
        PortfolioPerformanceEvidenceKind::BenchmarkLevelSnapshot => 11,
    }
}

/// The stable wire code of an evidence kind.
pub fn evidence_kind_code(kind: PortfolioPerformanceEvidenceKind) -> (code: u8)
    ensures
        code == evidence_kind_code_of(kind),
{
    match kind {
        PortfolioPerformanceEvidenceKind::Book => 1,
        PortfolioPerformanceEvidenceKind::PortfolioGroup => 2,
        PortfolioPerformanceEvidenceKind::Portfolio => 3,
        PortfolioPerformanceEvidenceKind::Benchmark => 4,
        PortfolioPerformanceEvidenceKind::PortfolioMetricConvention => 5,
        PortfolioPerformanceEvidenceKind::PortfolioPerformanceConvention => 6,
        PortfolioPerformanceEvidenceKind::Calendar => 7,
        PortfolioPerformanceEvidenceKind::Unit => 8,
        PortfolioPerformanceEvidenceKind::PortfolioValuationSnapshot => 9,
        PortfolioPerformanceEvidenceKind::PositionSnapshot => 10,
        PortfolioPerformanceEvidenceKind::BenchmarkLevelSnapshot => 11,
    }
}

/// Distinct kinds have distinct wire codes.
pub proof fn law_evidence_kind_codes_distinct(
    a: PortfolioPerformanceEvidenceKind,
    b: PortfolioPerformanceEvidenceKind,
)
    ensures
        evidence_kind_code_of(a) == evidence_kind_code_of(b) ==> a == b,
        1 <= evidence_kind_code_of(a) <= 11,
{
}

/// How many sessions and observations a performance series expected and found.
#[derive(Clone, Debug, PartialEq, Eq)]
pub struct PortfolioPerformanceCoverage {
    expected_sessions: u64,
    observed_sessions: u64,
    expected_portfolio_observations: u64,
    observed_portfolio_observations: u64,
    expected_benchmark_observations: u64,
    observed_benchmark_observations: u64,
}

impl PortfolioPerformanceCoverage {
    pub closed spec fn spec_expected_sessions(&self) -> u64 {
        self.expected_sessions
    }

    pub closed spec fn spec_observed_sessions(&self) -> u64 {
        self.observed_sessions
    }

    pub closed spec fn spec_expected_portfolio_observations(&self) -> u64 {
        self.expected_portfolio_observations
    }

    pub closed spec fn spec_observed_portfolio_observations(&self) -> u64 {
        self.observed_portfolio_observations
    }

    pub closed spec fn spec_expected_benchmark_observations(&self) -> u64 {
        self.expected_benchmark_observations
    }

    pub closed spec fn spec_observed_benchmark_observations(&self) -> u64 {
        self.observed_benchmark_observations
    }

    /// Full coverage of `session_count` sessions for `member_count` member portfolios: one
    /// observation per member and session, and one benchmark level per session. Validation
    /// failure when the observation count overflows.
    pub fn complete(session_count: usize, member_count: usize) -> (result: ApplicationResult<Self>)
        ensures
            result is Ok <==> session_count * member_count <= usize::MAX,
            result matches Err(e) ==> e == failure(ApplicationErrorCategory::ValidationFailed),
            result matches Ok(coverage) ==> {
                &&& coverage.spec_expected_sessions() == session_count
                &&& coverage.spec_observed_sessions() == session_count
                &&& coverage.spec_expected_portfolio_observations() == session_count * member_count
                &&& coverage.spec_observed_portfolio_observations() == session_count * member_count
                &&& coverage.spec_expected_benchmark_observations() == session_count
                &&& coverage.spec_observed_benchmark_observations() == session_count
            },
    {
        let sessions = session_count as u64;
        let observations = match session_count.checked_mul(member_count) {
            Some(value) => value as u64,
            None => {
                return Err(validation());
            },
        };
        Ok(PortfolioPerformanceCoverage {
            expected_sessions: sessions,
            observed_sessions: sessions,
            expected_portfolio_observations: observations,
            observed_portfolio_observations: observations,
            expected_benchmark_observations: sessions,
            observed_benchmark_observations: sessions,
        })
    }

    pub fn expected_session_count(&self) -> (count: u64)
        ensures
            count == self.spec_expected_sessions(),
    {
        self.expected_sessions
    }

    pub fn observed_session_count(&self) -> (count: u64)
        ensures
            count == self.spec_observed_sessions(),
    {
        self.observed_sessions
    }

    pub fn expected_portfolio_observation_count(&self) -> (count: u64)
        ensures
            count == self.spec_expected_portfolio_observations(),
    {
        self.expected_portfolio_observations
    }

    pub fn observed_portfolio_observation_count(&self) -> (count: u64)
        ensures
            count == self.spec_observed_portfolio_observations(),
    {
        self.observed_portfolio_observations
    }

    pub fn expected_benchmark_observation_count(&self) -> (count: u64)
        ensures
            count == self.spec_expected_benchmark_observations(),
    {
        self.expected_benchmark_observations
    }

    pub fn observed_benchmark_observation_count(&self) -> (count: u64)
        ensures
            count == self.spec_observed_benchmark_observations(),
    {
        self.observed_benchmark_observations
    }
}

/// One published benchmark level, as the performance series reads it.
#[derive(Clone, Debug)]
pub struct BenchmarkLevelFacts {
    pub owner: OwnerRef,
    pub subject_ref: VersionRef,
    pub benchmark: LineageRef,
    pub level_unit: UnitRef,
    pub valuation_at: MarketTime,
    pub visible_at: MarketTime,
}

/// Two lineage references are the same: identifier, version and content hash.
pub open spec fn same_lineage(a: LineageRef, b: LineageRef) -> bool {
    &&& a.object_id@ == b.object_id@
    &&& a.version == b.version
    &&& match (a.content_hash, b.content_hash) {
        (Some(x), Some(y)) => x@ == y@,
        (None, None) => true,
        _ => false,
    }
}

fn lineage_equal(a: &LineageRef, b: &LineageRef) -> (same: bool)
    ensures
        same == same_lineage(*a, *b),
{
    let hashes = match (&a.content_hash, &b.content_hash) {
        (Some(x), Some(y)) => bytes_equal(x.as_slice(), y.as_slice()),
        (None, None) => true,
        _ => false,
    };
    a.object_id == b.object_id && a.version == b.version && hashes
}

/// A level belongs to the request: the context's owner and subject, the benchmark, the return
/// Unit, and visible by the knowledge instant.
pub open spec fn level_belongs(
    context: NormalizedPortfolioContext,
    benchmark: LineageRef,
    return_unit: UnitRef,
    level: BenchmarkLevelFacts,
) -> bool {
    &&& level.owner.tenant_id@ == context.owner.tenant_id@
    &&& level.owner.owner_id@ == context.owner.owner_id@
    &&& level.subject_ref@ == context.subject_ref@
    &&& same_lineage(level.benchmark, benchmark)
    &&& level.level_unit@ == return_unit@
    &&& !instant_less(context.knowledge_at.instant, level.visible_at.instant)
}

/// The last session on a local date.
pub open spec fn last_session_on(sessions: Seq<MarketTime>, date: LocalDate) -> Option<int> {
    if exists|k: int| 0 <= k < sessions.len() && #[trigger] sessions[k].local_trading_date == date {
        Some(
            choose|k: int|
                0 <= k < sessions.len() && #[trigger] sessions[k].local_trading_date == date && forall|m: int|
                    k < m < sessions.len() ==> (#[trigger] sessions[m]).local_trading_date != date,
        )
    } else {
        None
    }
}

/// A level is taken exactly at the last session of its local date.
pub open spec fn level_at_session(sessions: Seq<MarketTime>, level: BenchmarkLevelFacts) -> bool {
    last_session_on(sessions, level.valuation_at.local_trading_date) matches Some(k) && same_time(
        level.valuation_at,
        sessions[k],
    )
}

/// The levels can be joined to the sessions: one valid level for each session, each taken at
/// the session of its date, no two on the same date, and every session date covered.
pub open spec fn levels_join(
    context: NormalizedPortfolioContext,
    benchmark: LineageRef,
    sessions: Seq<MarketTime>,
    levels: Seq<BenchmarkLevelFacts>,
    return_unit: UnitRef,
) -> bool {
    &&& levels.len() == sessions.len()
    &&& forall|j: int| 0 <= j < levels.len() ==> level_belongs(context, benchmark, return_unit, #[trigger] levels[j])
    &&& forall|j: int| 0 <= j < levels.len() ==> level_at_session(sessions, #[trigger] levels[j])
    &&& forall|a: int, b: int|
        0 <= a < levels.len() && 0 <= b < levels.len() && a != b ==> (#[trigger] levels[a]).valuation_at.local_trading_date
            != (#[trigger] levels[b]).valuation_at.local_trading_date
    &&& sessions_covered(sessions, levels)
}

/// Every session's local date has a level.
pub open spec fn sessions_covered(sessions: Seq<MarketTime>, levels: Seq<BenchmarkLevelFacts>) -> bool {
    forall|k: int| 0 <= k < sessions.len() ==> #[trigger] has_level_on(levels, sessions[k].local_trading_date)
}

/// Some level is on the local date.
pub open spec fn has_level_on(levels: Seq<BenchmarkLevelFacts>, date: LocalDate) -> bool {
    exists|j: int| 0 <= j < levels.len() && (#[trigger] levels[j]).valuation_at.local_trading_date == date
}

proof fn lemma_last_session(sessions: Seq<MarketTime>, date: LocalDate, k: int)
    requires
        0 <= k < sessions.len(),
        sessions[k].local_trading_date == date,
        forall|m: int| k < m < sessions.len() ==> (#[trigger] sessions[m]).local_trading_date != date,
    ensures
        last_session_on(sessions, date) == Some(k),
{
    let c = choose|c: int|
        0 <= c < sessions.len() && #[trigger] sessions[c].local_trading_date == date && forall|m: int|
            c < m < sessions.len() ==> (#[trigger] sessions[m]).local_trading_date != date;
    assert(0 <= c < sessions.len() && sessions[c].local_trading_date == date);
    if c < k {
        assert(sessions[k].local_trading_date != date);
    }
    if k < c {
        assert(sessions[c].local_trading_date != date);
    }
}

proof fn lemma_latest_from(sessions: Seq<MarketTime>, date: LocalDate, k: int) -> (last: int)
    requires
        0 <= k < sessions.len(),
        sessions[k].local_trading_date == date,
    ensures
        0 <= last < sessions.len(),
        sessions[last].local_trading_date == date,
        forall|m: int| last < m < sessions.len() ==> (#[trigger] sessions[m]).local_trading_date != date,
    decreases sessions.len() - k,
{
    if exists|m: int| k < m < sessions.len() && (#[trigger] sessions[m]).local_trading_date == date {
        let m = choose|m: int| k < m < sessions.len() && (#[trigger] sessions[m]).local_trading_date == date;
        lemma_latest_from(sessions, date, m)
    } else {
        k
    }
}

/// When the last session on a date exists, it lies among the sessions and is on that date.
proof fn lemma_last_session_found(sessions: Seq<MarketTime>, date: LocalDate)
    ensures
        last_session_on(sessions, date) matches Some(k) ==> 0 <= k < sessions.len()
            && sessions[k].local_trading_date == date,
{
    if exists|k: int| 0 <= k < sessions.len() && #[trigger] sessions[k].local_trading_date == date {
        let k0 = choose|k: int| 0 <= k < sessions.len() && #[trigger] sessions[k].local_trading_date == date;
        let last = lemma_latest_from(sessions, date, k0);
        lemma_last_session(sessions, date, last);
    }
}

fn last_session_index(sessions: &[MarketTime], date: LocalDate) -> (index: Option<usize>)
    ensures
        match index {
            Some(k) => last_session_on(sessions@, date) == Some(k as int) && k < sessions@.len()
                && sessions@[k as int].local_trading_date == date,
            None => last_session_on(sessions@, date) is None,
        },
{
    let mut k: usize = sessions.len();
    while k > 0
        invariant
            k <= sessions@.len(),
            forall|m: int| k <= m < sessions@.len() ==> (#[trigger] sessions@[m]).local_trading_date != date,
        decreases k,
    {
        if sessions[k - 1].local_trading_date == date {
            proof {
                lemma_last_session(sessions@, date, k - 1);
            }
            return Some(k - 1);
        }
        k = k - 1;
    }
    None
}

/// Levels join a performance request only when each is a level of the requested benchmark —
/// the same identifier, version and content hash — for the context's owner and subject, in the
/// return Unit and visible by the knowledge instant, one per expected session.
pub proof fn law_joined_levels_are_the_requested_benchmark(
    context: NormalizedPortfolioContext,
    benchmark: LineageRef,
    sessions: Seq<MarketTime>,
    levels: Seq<BenchmarkLevelFacts>,
    return_unit: UnitRef,
)
    ensures
        levels_join(context, benchmark, sessions, levels, return_unit) ==> levels.len() == sessions.len() && forall|j: int|
            0 <= j < levels.len() ==> {
            &&& (#[trigger] levels[j]).owner.tenant_id@ == context.owner.tenant_id@
            &&& levels[j].owner.owner_id@ == context.owner.owner_id@
            &&& levels[j].subject_ref@ == context.subject_ref@
            &&& levels[j].benchmark.object_id@ == benchmark.object_id@
            &&& levels[j].benchmark.version == benchmark.version
            &&& (levels[j].benchmark.content_hash is Some <==> benchmark.content_hash is Some)
            &&& (benchmark.content_hash is Some ==> levels[j].benchmark.content_hash->0@ == benchmark.content_hash->0@)
            &&& levels[j].level_unit@ == return_unit@
            &&& !instant_less(context.knowledge_at.instant, levels[j].visible_at.instant)
        },
{
    if levels_join(context, benchmark, sessions, levels, return_unit) {
        assert forall|j: int| 0 <= j < levels.len() implies {
            &&& (#[trigger] levels[j]).owner.tenant_id@ == context.owner.tenant_id@
            &&& levels[j].owner.owner_id@ == context.owner.owner_id@
            &&& levels[j].subject_ref@ == context.subject_ref@
            &&& levels[j].benchmark.object_id@ == benchmark.object_id@
            &&& levels[j].benchmark.version == benchmark.version
            &&& (levels[j].benchmark.content_hash is Some <==> benchmark.content_hash is Some)
            &&& (benchmark.content_hash is Some ==> levels[j].benchmark.content_hash->0@ == benchmark.content_hash->0@)
            &&& levels[j].level_unit@ == return_unit@
            &&& !instant_less(context.knowledge_at.instant, levels[j].visible_at.instant)
        } by {
            assert(level_belongs(context, benchmark, return_unit, levels[j]));
        }
    }
}

/// Joins published benchmark levels to the expected sessions: for each session the position of
/// its level. Fails with incomplete lineage unless the levels join the sessions one to one.
pub fn match_benchmark_levels(
    context: &NormalizedPortfolioContext,
    benchmark: &LineageRef,
    sessions: &[MarketTime],
    levels: &[BenchmarkLevelFacts],
    return_unit: &UnitRef,
) -> (result: ApplicationResult<Vec<usize>>)
    ensures
        result is Ok <==> levels_join(*context, *benchmark, sessions@, levels@, *return_unit),
        result matches Ok(order) ==> order@.len() == sessions@.len() && forall|k: int|
            0 <= k < sessions@.len() ==> (order@[k] as int) < levels@.len() && (#[trigger] levels@[order@[k] as int]).valuation_at.local_trading_date
                == sessions@[k].local_trading_date,
        result matches Err(e) ==> e == failure(ApplicationErrorCategory::LineageIncomplete),
        result is Ok ==> levels@.len() == sessions@.len() && forall|j: int| 0 <= j < levels@.len() ==> {
            &&& (#[trigger] levels@[j]).owner.tenant_id@ == context.owner.tenant_id@
            &&& levels@[j].owner.owner_id@ == context.owner.owner_id@
            &&& levels@[j].subject_ref@ == context.subject_ref@
            &&& levels@[j].benchmark.object_id@ == benchmark.object_id@
            &&& levels@[j].benchmark.version == benchmark.version
            &&& (levels@[j].benchmark.content_hash is Some <==> benchmark.content_hash is Some)
            &&& (benchmark.content_hash is Some ==> levels@[j].benchmark.content_hash->0@ == benchmark.content_hash->0@)
            &&& levels@[j].level_unit@ == return_unit@
            &&& !instant_less(context.knowledge_at.instant, levels@[j].visible_at.instant)
        },
{
    proof {
        law_joined_levels_are_the_requested_benchmark(*context, *benchmark, sessions@, levels@, *return_unit);
    }
    if levels.len() != sessions.len() {
        return Err(lineage());
    }
    let mut j: usize = 0;
    while j < levels.len()
        invariant
            j <= levels@.len(),
            levels@.len() == sessions@.len(),
            forall|q: int| 0 <= q < j ==> level_belongs(*context, *benchmark, *return_unit, #[trigger] levels@[q]),
            forall|q: int| 0 <= q < j ==> level_at_session(sessions@, #[trigger] levels@[q]),
            forall|a: int, b: int|
                0 <= a < j && 0 <= b < j && a != b ==> (#[trigger] levels@[a]).valuation_at.local_trading_date
                    != (#[trigger] levels@[b]).valuation_at.local_trading_date,
        decreases levels.len() - j,
    {
        let level = &levels[j];
        if !level.owner.same_as(&context.owner) || !level.subject_ref.same_as(&context.subject_ref)
            || !lineage_equal(&level.benchmark, benchmark) || !level.level_unit.same_as(return_unit)
            || instant_before(context.knowledge_at.instant, level.visible_at.instant) {
            return Err(lineage());
        }
        let expected = match last_session_index(sessions, level.valuation_at.local_trading_date) {
            Some(k) => k,
            None => {
                return Err(lineage());
            },
        };
        if !market_times_equal(&level.valuation_at, &sessions[expected]) {
            return Err(lineage());
        }
        let mut q: usize = 0;
        while q < j
            invariant
                q <= j,
                j < levels@.len(),
                *level == levels@[j as int],
                forall|r: int| 0 <= r < q ==> levels@[r].valuation_at.local_trading_date
                    != levels@[j as int].valuation_at.local_trading_date,
            decreases j - q,
        {
            if levels[q].valuation_at.local_trading_date == level.valuation_at.local_trading_date {
                return Err(lineage());
            }
            q = q + 1;
        }
        j = j + 1;
    }
    match session_order(sessions, levels) {
        Some(order) => Ok(order),
        None => Err(lineage()),
    }
}

fn session_order(sessions: &[MarketTime], levels: &[BenchmarkLevelFacts]) -> (order: Option<Vec<usize>>)
    ensures
        order is Some <==> sessions_covered(sessions@, levels@),
        order matches Some(o) ==> o@.len() == sessions@.len() && forall|k: int|
            0 <= k < sessions@.len() ==> (o@[k] as int) < levels@.len() && (#[trigger] levels@[o@[k] as int]).valuation_at.local_trading_date
                == sessions@[k].local_trading_date,
{
    let mut order: Vec<usize> = Vec::new();
    let mut k: usize = 0;
    while k < sessions.len()
        invariant
            k <= sessions@.len(),
            order@.len() == k,
            forall|m: int|
                0 <= m < k ==> (order@[m] as int) < levels@.len() && (#[trigger] levels@[order@[m] as int]).valuation_at.local_trading_date
                    == sessions@[m].local_trading_date,
            forall|m: int| 0 <= m < k ==> #[trigger] has_level_on(levels@, sessions@[m].local_trading_date),
        decreases sessions.len() - k,
    {
        let date = sessions[k].local_trading_date;
        let mut q: usize = 0;
        while q < levels.len() && levels[q].valuation_at.local_trading_date != date
            invariant
                q <= levels@.len(),
                k < sessions@.len(),
                date == sessions@[k as int].local_trading_date,
                forall|r: int| 0 <= r < q ==> (#[trigger] levels@[r]).valuation_at.local_trading_date != date,
            decreases levels.len() - q,
        {
            q = q + 1;
        }
        if q == levels.len() {
            assert(!has_level_on(levels@, sessions@[k as int].local_trading_date));
            return None;
        }
        assert(levels@[q as int].valuation_at.local_trading_date == sessions@[k as int].local_trading_date);
        assert(has_level_on(levels@, sessions@[k as int].local_trading_date));
        order.push(q);
        k = k + 1;
    }
    Some(order)
}

/// Some session is at exactly the level's valuation time: the same instant, zone and date.
pub open spec fn taken_at_a_session(sessions: Seq<MarketTime>, level: BenchmarkLevelFacts) -> bool {
    exists|k: int|
        0 <= k < sessions.len() && (#[trigger] sessions[k]).instant == level.valuation_at.instant
            && sessions[k].market_timezone@ == level.valuation_at.market_timezone@
            && sessions[k].local_trading_date == level.valuation_at.local_trading_date
}

/// Joined levels are taken at the expected sessions: each level's valuation time is exactly
/// the time of a session on its date (instant, zone and date), and no two levels share a date.
pub proof fn law_joined_levels_sit_on_sessions(
    context: NormalizedPortfolioContext,
    benchmark: LineageRef,
    sessions: Seq<MarketTime>,
    levels: Seq<BenchmarkLevelFacts>,
    return_unit: UnitRef,
)
    ensures
        levels_join(context, benchmark, sessions, levels, return_unit) ==> {
            &&& forall|j: int| 0 <= j < levels.len() ==> taken_at_a_session(sessions, #[trigger] levels[j])
            &&& forall|a: int, b: int| 0 <= a < b < levels.len() ==> (#[trigger] levels[a]).valuation_at.local_trading_date
                != (#[trigger] levels[b]).valuation_at.local_trading_date
        },
{
    if levels_join(context, benchmark, sessions, levels, return_unit) {
        assert forall|j: int| 0 <= j < levels.len() implies taken_at_a_session(sessions, #[trigger] levels[j]) by {
            assert(level_at_session(sessions, levels[j]));
            let date = levels[j].valuation_at.local_trading_date;
            lemma_last_session_found(sessions, date);
            let k = last_session_on(sessions, date)->0;
            assert(0 <= k < sessions.len() && sessions[k].local_trading_date == date);
            assert(sessions[k].instant == levels[j].valuation_at.instant);
        }
        assert forall|a: int, b: int| 0 <= a < b < levels.len() implies (#[trigger] levels[a]).valuation_at.local_trading_date
            != (#[trigger] levels[b]).valuation_at.local_trading_date by {
            assert(a != b);
        }
    }
}

} // verus!
