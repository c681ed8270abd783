use vstd::prelude::*;

use crate::aggregation::{
    FactorDv01, PortfolioCoverageReason, PortfolioMetricDataMode, PortfolioMetricOutputScales, PortfolioRatesUnitBindings, PortfolioRatesUnitRole,
    RatesUnitRequirement, canonical_dimension, canonical_dimensions, covers_all_roles,
    dimension_name, distinct_roles, has_role,
};
use crate::decimal::{MAX_DECIMAL_SCALE, UnitRef};
use crate::error::{
    ApplicationErrorCategory, ApplicationResult, failure, integrity, lineage, validation,
};
use crate::bytes::bytes_equal;
use crate::decimal::FixedDecimal;
use crate::evidence::{exact_lineage_set, market_times_equal, require_exact_lineage_set, same_time};
use crate::primitives::{
    Instant, LineageRef, MarketTime, OwnerRef, VersionRef, instant_before, instant_less,
};
use crate::text::same_text;

verus! {

/// The Unit, dimension and output scale that the analytics authority binds to one Rates role.
#[derive(Clone, Debug)]
pub struct PortfolioRatesUnitAuthority {
    pub role: PortfolioRatesUnitRole,
    pub reference: UnitRef,
    pub dimension: String,
    pub scale: u32,
}

/// An authority entry is usable: its dimension is its role's canonical dimension and its
/// scale lies within the decimal boundary.
pub open spec fn authority_entry_valid(value: PortfolioRatesUnitAuthority) -> bool {
    value.dimension@ == canonical_dimension(value.role) && value.scale <= MAX_DECIMAL_SCALE
}

/// No two entries bind the same role.
pub open spec fn authority_roles_distinct(values: Seq<PortfolioRatesUnitAuthority>) -> bool {
    forall|i: int, j: int|
        0 <= i < values.len() && 0 <= j < values.len() && i != j ==> #[trigger] values[i].role
            != #[trigger] values[j].role
}

/// Some entry binds `role`.
pub open spec fn authority_has_role(values: Seq<PortfolioRatesUnitAuthority>, role: PortfolioRatesUnitRole) -> bool {
    exists|i: int| 0 <= i < values.len() && #[trigger] values[i].role == role
}

/// Every role is bound by some entry.
pub open spec fn authority_covers_roles(values: Seq<PortfolioRatesUnitAuthority>) -> bool {
    forall|role: PortfolioRatesUnitRole| #[trigger] authority_has_role(values, role)
}

/// Two authority entries agree on role, Unit, dimension and scale.
pub open spec fn same_authority(a: PortfolioRatesUnitAuthority, b: PortfolioRatesUnitAuthority) -> bool {
    a.role == b.role && a.reference@ == b.reference@ && a.dimension@ == b.dimension@ && a.scale
        == b.scale
}

/// Two authority lists agree entry by entry.
pub open spec fn same_authorities(
    a: Seq<PortfolioRatesUnitAuthority>,
    b: Seq<PortfolioRatesUnitAuthority>,
) -> bool {
    a.len() == b.len() && forall|i: int| 0 <= i < a.len() ==> same_authority(#[trigger] a[i], b[i])
}

/// The entry at `i` is the only one of its role.
pub open spec fn sole_role_at(values: Seq<PortfolioRatesUnitAuthority>, role: PortfolioRatesUnitRole, i: int) -> bool {
    &&& 0 <= i < values.len()
    &&& values[i].role == role
    &&& forall|j: int| 0 <= j < values.len() && j != i ==> (#[trigger] values[j]).role != role
}

/// Exactly one entry binds `role`, and it is usable.
pub open spec fn authority_unit_valid(values: Seq<PortfolioRatesUnitAuthority>, role: PortfolioRatesUnitRole) -> bool {
    exists|i: int| #[trigger] sole_role_at(values, role, i) && authority_entry_valid(values[i])
}

fn same_authority_entry(a: &PortfolioRatesUnitAuthority, b: &PortfolioRatesUnitAuthority) -> (same:
    bool)
    ensures
        same == same_authority(*a, *b),
{
    a.role == b.role && a.reference.same_as(&b.reference) && same_text(&a.dimension, &b.dimension)
        && a.scale == b.scale
}

fn same_authority_list(a: &[PortfolioRatesUnitAuthority], b: &[PortfolioRatesUnitAuthority]) -> (same:
    bool)
    ensures
        same == same_authorities(a@, b@),
{
    if a.len() != b.len() {
        return false;
    }
    let mut i: usize = 0;
    while i < a.len()
        invariant
            i <= a@.len(),
            a@.len() == b@.len(),
            forall|k: int| 0 <= k < i ==> same_authority(#[trigger] a@[k], b@[k]),
        decreases a.len() - i,
    {
        if !same_authority_entry(&a[i], &b[i]) {
            return false;
        }
        i = i + 1;
    }
    true
}

/// An authority list can be frozen into result Units: every entry is usable and the nine
/// roles are each bound exactly once.
pub open spec fn result_units_valid(values: Seq<PortfolioRatesUnitAuthority>) -> bool {
    &&& forall|i: int| 0 <= i < values.len() ==> authority_entry_valid(#[trigger] values[i])
    &&& values.len() == 9
    &&& authority_roles_distinct(values)
    &&& authority_covers_roles(values)
}

/// Freezes the result Units that an analytics authority binds. Fails with a validation error
/// unless every entry carries its role's canonical dimension and a scale within the decimal
/// boundary, and the entries bind each of the nine roles exactly once.
pub fn portfolio_result_units(values: &[PortfolioRatesUnitAuthority]) -> (result: ApplicationResult<
    PortfolioRatesUnitBindings,
>)
    ensures
        result is Ok <==> result_units_valid(values@),
        result matches Ok(bindings) ==> forall|i: int|
            0 <= i < values@.len() ==> {
                let r = bindings.requirement_for(#[trigger] values@[i].role);
                r.reference == values@[i].reference && r.expected_dimension@ == canonical_dimension(
                    values@[i].role,
                )
            },
        result matches Err(e) ==> e == failure(ApplicationErrorCategory::ValidationFailed),
{
    let mut pairs: Vec<(PortfolioRatesUnitRole, RatesUnitRequirement)> = Vec::new();
    let mut i: usize = 0;
    while i < values.len()
        invariant
            i <= values@.len(),
            pairs@.len() == i,
            forall|k: int| 0 <= k < i ==> authority_entry_valid(#[trigger] values@[k]),
            forall|k: int| 0 <= k < i ==> (#[trigger] pairs@[k]).0 == values@[k].role
                && pairs@[k].1.reference == values@[k].reference
                && pairs@[k].1.expected_dimension@ == canonical_dimension(values@[k].role),
        decreases values.len() - i,
    {
        let value = &values[i];
        let expected = dimension_name(value.role);
        if !same_text(&value.dimension, &expected.to_owned()) || value.scale > MAX_DECIMAL_SCALE {
            return Err(validation());
        }
        pairs.push((value.role, RatesUnitRequirement::new(value.reference.duplicate(), expected.to_owned())));
        i = i + 1;
    }
    let ghost ps = pairs@;
    proof {
        let vs = values@;
        assert(distinct_roles(ps) == authority_roles_distinct(vs)) by {
            if distinct_roles(ps) {
                assert forall|a: int, b: int|
                    0 <= a < vs.len() && 0 <= b < vs.len() && a != b implies #[trigger] vs[a].role
                    != #[trigger] vs[b].role by {
                    assert(ps[a].0 != ps[b].0);
                }
            }
            if authority_roles_distinct(vs) {
                assert forall|a: int, b: int|
                    0 <= a < ps.len() && 0 <= b < ps.len() && a != b implies #[trigger] ps[a].0
                    != #[trigger] ps[b].0 by {
                    assert(vs[a].role != vs[b].role);
                }
            }
        }
        assert forall|role: PortfolioRatesUnitRole|
            has_role(ps, role) == #[trigger] authority_has_role(vs, role) by {
            if has_role(ps, role) {
                let k = choose|k: int| 0 <= k < ps.len() && #[trigger] ps[k].0 == role;
                assert(vs[k].role == role);
            }
            if authority_has_role(vs, role) {
                let k = choose|k: int| 0 <= k < vs.len() && #[trigger] vs[k].role == role;
                assert(ps[k].0 == role);
            }
        }
        assert(covers_all_roles(ps) == authority_covers_roles(vs)) by {
            if covers_all_roles(ps) {
                assert forall|role: PortfolioRatesUnitRole| #[trigger] authority_has_role(vs, role) by {
                    assert(has_role(ps, role) == authority_has_role(vs, role));
                    match role {
                        PortfolioRatesUnitRole::CurrencyAmount => {},
                        PortfolioRatesUnitRole::PricePer100 => {},
                        PortfolioRatesUnitRole::Rate => {},
                        PortfolioRatesUnitRole::Years => {},
                        PortfolioRatesUnitRole::YearsSquared => {},
                        PortfolioRatesUnitRole::Dv01Per100 => {},
                        PortfolioRatesUnitRole::Dv01 => {},
                        PortfolioRatesUnitRole::Dimensionless => {},
                        PortfolioRatesUnitRole::ContractCount => {},
                    }
                }
            }
            if authority_covers_roles(vs) {
                assert(authority_has_role(vs, PortfolioRatesUnitRole::CurrencyAmount));
                assert(authority_has_role(vs, PortfolioRatesUnitRole::PricePer100));
                assert(authority_has_role(vs, PortfolioRatesUnitRole::Rate));
                assert(authority_has_role(vs, PortfolioRatesUnitRole::Years));
                assert(authority_has_role(vs, PortfolioRatesUnitRole::YearsSquared));
                assert(authority_has_role(vs, PortfolioRatesUnitRole::Dv01Per100));
                assert(authority_has_role(vs, PortfolioRatesUnitRole::Dv01));
                assert(authority_has_role(vs, PortfolioRatesUnitRole::Dimensionless));
                assert(authority_has_role(vs, PortfolioRatesUnitRole::ContractCount));
            }
        }
        assert(canonical_dimensions(ps));
    }
    PortfolioRatesUnitBindings::new(pairs)
}

/// The entry that binds `role`, when exactly one does.
pub open spec fn sole_entry(values: Seq<PortfolioRatesUnitAuthority>, role: PortfolioRatesUnitRole) -> PortfolioRatesUnitAuthority {
    values[choose|i: int| #[trigger] sole_role_at(values, role, i)]
}

/// Picks the one entry that binds `role`. Fails with a validation error unless exactly one
/// entry binds it and that entry carries the canonical dimension and a scale within the
/// decimal boundary.
pub fn authority_unit<'a>(values: &'a [PortfolioRatesUnitAuthority], role: PortfolioRatesUnitRole) -> (result:
    ApplicationResult<&'a PortfolioRatesUnitAuthority>)
    ensures
        result is Ok <==> authority_unit_valid(values@, role),
        result matches Ok(unit) ==> *unit == sole_entry(values@, role) && forall|i: int|
            0 <= i < values@.len() && #[trigger] values@[i].role == role ==> values@[i] == *unit,
        result matches Err(e) ==> e == failure(ApplicationErrorCategory::ValidationFailed),
{
    let mut i: usize = 0;
    while i < values.len() && values[i].role != role
        invariant
            i <= values@.len(),
            forall|k: int| 0 <= k < i ==> (#[trigger] values@[k]).role != role,
        decreases values.len() - i,
    {
        i = i + 1;
    }
    if i == values.len() {
        return Err(validation());
    }
    let found = i;
    let mut j: usize = found + 1;
    while j < values.len()
        invariant
            found < j <= values@.len(),
            values@[found as int].role == role,
            forall|k: int| 0 <= k < found ==> (#[trigger] values@[k]).role != role,
            forall|k: int| found < k < j ==> (#[trigger] values@[k]).role != role,
        decreases values.len() - j,
    {
        if values[j].role == role {
            proof {
                assert forall|k: int| !#[trigger] sole_role_at(values@, role, k) by {
                    if sole_role_at(values@, role, k) {
                        if k != found {
                            assert(values@[found as int].role != role);
                        } else {
                            assert(values@[j as int].role != role);
                        }
                    }
                }
            }
            return Err(validation());
        }
        j = j + 1;
    }
    assert(sole_role_at(values@, role, found as int));
    proof {
        assert forall|k: int| #[trigger] sole_role_at(values@, role, k) implies k == found by {
            if k != found {
                assert(values@[found as int].role != role);
            }
        }
    }
    let unit = &values[found];
    if !same_text(&unit.dimension, &dimension_name(role).to_owned()) || unit.scale > MAX_DECIMAL_SCALE {
        return Err(validation());
    }
    Ok(unit)
}

/// The normalized request that a portfolio overview is computed for, as the aggregation reads
/// it: the requesting owner, the valuation and knowledge instants, the reporting period, the
/// exact member portfolios of the selected scope and the reporting currency Unit.
#[derive(Clone, Debug)]
pub struct NormalizedPortfolioContext {
    pub owner: OwnerRef,
    pub subject_ref: VersionRef,
    pub valuation_at: MarketTime,
    pub knowledge_at: MarketTime,
    pub period_from: MarketTime,
    pub period_to: MarketTime,
    pub member_portfolios: Vec<LineageRef>,
    pub currency_unit: UnitRef,
}

/// The roles whose output scales a portfolio overview uses.
pub open spec fn scale_roles_valid(values: Seq<PortfolioRatesUnitAuthority>) -> bool {
    &&& authority_unit_valid(values, PortfolioRatesUnitRole::CurrencyAmount)
    &&& authority_unit_valid(values, PortfolioRatesUnitRole::Rate)
    &&& authority_unit_valid(values, PortfolioRatesUnitRole::Years)
    &&& authority_unit_valid(values, PortfolioRatesUnitRole::YearsSquared)
    &&& authority_unit_valid(values, PortfolioRatesUnitRole::Dv01)
}

/// Every authority binds the same Units as the first.
pub open spec fn uniform_authorities(authorities: Seq<Vec<PortfolioRatesUnitAuthority>>) -> bool {
    forall|k: int| 0 < k < authorities.len() ==> same_authorities(#[trigger] authorities[k]@, authorities[0]@)
}

/// Derives the output scales of every overview metric from the analytics authorities of all
/// members and the benchmark. Fails with an integrity error when there is no authority, and with
/// a validation error when the authorities disagree on their Units, when the first does not bind
/// each of the currency, rate, years, years-squared and DV01 roles exactly once with a usable
/// entry, or when its currency Unit is not the context's.
pub fn metric_output_scales(
    context: &NormalizedPortfolioContext,
    authorities: &[Vec<PortfolioRatesUnitAuthority>],
) -> (result: ApplicationResult<PortfolioMetricOutputScales>)
    ensures
        result is Ok <==> authorities@.len() > 0 && uniform_authorities(authorities@)
            && scale_roles_valid(authorities@[0]@) && sole_entry(
            authorities@[0]@,
            PortfolioRatesUnitRole::CurrencyAmount,
        ).reference@ == context.currency_unit@,
        result matches Ok(scales) ==> {
            let first = authorities@[0]@;
            &&& scales.spec_money() == sole_entry(first, PortfolioRatesUnitRole::CurrencyAmount).scale
            &&& scales.spec_rate() == sole_entry(first, PortfolioRatesUnitRole::Rate).scale
            &&& scales.spec_years() == sole_entry(first, PortfolioRatesUnitRole::Years).scale
            &&& scales.spec_years_squared() == sole_entry(first, PortfolioRatesUnitRole::YearsSquared).scale
            &&& scales.spec_dv01() == sole_entry(first, PortfolioRatesUnitRole::Dv01).scale
        },
        result matches Err(e) ==> e == if authorities@.len() == 0 {
            failure(ApplicationErrorCategory::HashMismatch)
        } else {
            failure(ApplicationErrorCategory::ValidationFailed)
        },
{
    if authorities.len() == 0 {
        return Err(integrity());
    }
    let first = &authorities[0];
    let mut k: usize = 1;
    while k < authorities.len()
        invariant
            1 <= k <= authorities@.len(),
            *first == authorities@[0],
            forall|m: int| 0 < m < k ==> same_authorities(#[trigger] authorities@[m]@, authorities@[0]@),
        decreases authorities.len() - k,
    {
        if !same_authority_list(authorities[k].as_slice(), first.as_slice()) {
            return Err(validation());
        }
        k = k + 1;
    }
    let currency = authority_unit(first.as_slice(), PortfolioRatesUnitRole::CurrencyAmount)?;
    let rate = authority_unit(first.as_slice(), PortfolioRatesUnitRole::Rate)?;
    let years = authority_unit(first.as_slice(), PortfolioRatesUnitRole::Years)?;
    let years_squared = authority_unit(first.as_slice(), PortfolioRatesUnitRole::YearsSquared)?;
    let dv01 = authority_unit(first.as_slice(), PortfolioRatesUnitRole::Dv01)?;
    if !currency.reference.same_as(&context.currency_unit) {
        return Err(validation());
    }
    PortfolioMetricOutputScales::new(
        currency.scale,
        rate.scale,
        years.scale,
        years_squared.scale,
        dv01.scale,
    )
}

/// A normalized context is coherent: knowledge is not older than the valuation, the period is
/// not reversed and ends at the valuation time, and the scope has at least one member.
pub open spec fn context_frame_valid(context: NormalizedPortfolioContext) -> bool {
    &&& !instant_less(context.knowledge_at.instant, context.valuation_at.instant)
    &&& !instant_less(context.period_to.instant, context.period_from.instant)
    &&& same_time(context.period_to, context.valuation_at)
    &&& context.member_portfolios@.len() > 0
}

/// Checks a normalized context before anything is read for it: a validation error when its
/// frame is incoherent, incomplete lineage when its members are not an exact lineage set.
pub fn validate_normalized_context(context: &NormalizedPortfolioContext) -> (result: ApplicationResult<()>)
    ensures
        result is Ok <==> context_frame_valid(*context) && exact_lineage_set(
            context.member_portfolios@,
        ),
        result matches Err(e) ==> e == if context_frame_valid(*context) {
            failure(ApplicationErrorCategory::LineageIncomplete)
        } else {
            failure(ApplicationErrorCategory::ValidationFailed)
        },
{
    let period_to = &context.period_to;
    let valuation_at = &context.valuation_at;
    let same_end = period_to.instant == valuation_at.instant && same_text(
        &period_to.market_timezone,
        &valuation_at.market_timezone,
    ) && period_to.local_trading_date == valuation_at.local_trading_date;
    if instant_before(context.knowledge_at.instant, context.valuation_at.instant) || instant_before(
        context.period_to.instant,
        context.period_from.instant,
    ) || !same_end || context.member_portfolios.len() == 0 {
        return Err(validation());
    }
    require_exact_lineage_set(context.member_portfolios.as_slice())
}

/// Nanoseconds in one second.
pub open spec fn nanos_per_second() -> int {
    1_000_000_000
}

/// The signed age of an observation at the knowledge instant, in nanoseconds.
pub open spec fn age_nanos(knowledge_at: Instant, observed_at: Instant) -> int {
    (knowledge_at.seconds - observed_at.seconds) * nanos_per_second() + (knowledge_at.nanos
        - observed_at.nanos)
}

/// The whole seconds of a signed nanosecond count, truncated toward zero.
pub open spec fn whole_seconds(nanos: int) -> int {
    if nanos >= 0 {
        nanos / nanos_per_second()
    } else {
        -((-nanos) / nanos_per_second())
    }
}

/// The age is a representable nanosecond count that is negative: the observation lies after
/// the knowledge instant.
pub open spec fn observed_in_future(knowledge_at: Instant, observed_at: Instant) -> bool {
    let age = age_nanos(knowledge_at, observed_at);
    i64::MIN <= age < 0
}

/// Whether an observation is older than the freshness limit at the knowledge instant. Fails
/// with an integrity error when the observation lies after the knowledge instant, and with a
/// validation error when the limit does not fit a signed 64-bit count of seconds.
pub fn is_stale(knowledge_at: Instant, observed_at: Instant, freshness_limit_seconds: u64) -> (result:
    ApplicationResult<bool>)
    ensures
        result is Ok <==> !observed_in_future(knowledge_at, observed_at) && freshness_limit_seconds
            <= i64::MAX,
        result matches Ok(stale) ==> stale == (whole_seconds(age_nanos(knowledge_at, observed_at))
            > freshness_limit_seconds),
        result matches Err(e) ==> e == if observed_in_future(knowledge_at, observed_at) {
            failure(ApplicationErrorCategory::HashMismatch)
        } else {
            failure(ApplicationErrorCategory::ValidationFailed)
        },
{
    let second_delta: i128 = knowledge_at.seconds as i128 - observed_at.seconds as i128;
    let nano_delta: i128 = knowledge_at.nanos as i128 - observed_at.nanos as i128;
    assert(-0x1_0000_0000_0000_0000 <= second_delta <= 0x1_0000_0000_0000_0000);
    assert(second_delta * 1_000_000_000 <= 0x1_0000_0000_0000_0000 * 1_000_000_000) by (nonlinear_arith)
        requires second_delta <= 0x1_0000_0000_0000_0000;
    assert(second_delta * 1_000_000_000 >= -0x1_0000_0000_0000_0000 * 1_000_000_000) by (nonlinear_arith)
        requires second_delta >= -0x1_0000_0000_0000_0000;
    let age: i128 = second_delta * 1_000_000_000 + nano_delta;
    assert(age == age_nanos(knowledge_at, observed_at));
    if age >= i64::MIN as i128 && age < 0 {
        return Err(integrity());
    }
    if freshness_limit_seconds > i64::MAX as u64 {
        return Err(validation());
    }
    let seconds: i128 = if age >= 0 {
        age / 1_000_000_000
    } else {
        -((-age) / 1_000_000_000)
    };
    Ok(seconds > freshness_limit_seconds as i128)
}

/// The coverage reasons that occur among `reasons`, each once, in their canonical order.
pub open spec fn canonical_reasons(reasons: Seq<PortfolioCoverageReason>) -> Seq<PortfolioCoverageReason> {
    (if reasons.contains(PortfolioCoverageReason::ShortPositionExcludedFromWeightedAverages) {
        seq![PortfolioCoverageReason::ShortPositionExcludedFromWeightedAverages]
    } else {
        Seq::empty()
    }) + (if reasons.contains(PortfolioCoverageReason::NonBondExcludedFromWeightedAverages) {
        seq![PortfolioCoverageReason::NonBondExcludedFromWeightedAverages]
    } else {
        Seq::empty()
    }) + (if reasons.contains(PortfolioCoverageReason::MissingBondMetricExcludedFromWeightedAverages) {
        seq![PortfolioCoverageReason::MissingBondMetricExcludedFromWeightedAverages]
    } else {
        Seq::empty()
    }) + (if reasons.contains(PortfolioCoverageReason::PositionExcludedFromPortfolioRisk) {
        seq![PortfolioCoverageReason::PositionExcludedFromPortfolioRisk]
    } else {
        Seq::empty()
    }) + (if reasons.contains(PortfolioCoverageReason::BenchmarkPositionExcludedFromPortfolioRisk) {
        seq![PortfolioCoverageReason::BenchmarkPositionExcludedFromPortfolioRisk]
    } else {
        Seq::empty()
    })
}

fn contains_reason(reasons: &[PortfolioCoverageReason], reason: PortfolioCoverageReason) -> (found: bool)
    ensures
        found == reasons@.contains(reason),
{
    let mut i: usize = 0;
    while i < reasons.len()
        invariant
            i <= reasons@.len(),
            forall|k: int| 0 <= k < i ==> reasons@[k] != reason,
        decreases reasons.len() - i,
    {
        if reasons[i] == reason {
            assert(reasons@[i as int] == reason);
            return true;
        }
        i = i + 1;
    }
    false
}

/// Sorts coverage reasons into their canonical order and drops repetitions.
pub fn sort_dedup_reasons(reasons: &[PortfolioCoverageReason]) -> (sorted: Vec<PortfolioCoverageReason>)
    ensures
        sorted@ == canonical_reasons(reasons@),
{
    let mut sorted: Vec<PortfolioCoverageReason> = Vec::new();
    if contains_reason(reasons, PortfolioCoverageReason::ShortPositionExcludedFromWeightedAverages) {
        sorted.push(PortfolioCoverageReason::ShortPositionExcludedFromWeightedAverages);
    }
    if contains_reason(reasons, PortfolioCoverageReason::NonBondExcludedFromWeightedAverages) {
        sorted.push(PortfolioCoverageReason::NonBondExcludedFromWeightedAverages);
    }
    if contains_reason(reasons, PortfolioCoverageReason::MissingBondMetricExcludedFromWeightedAverages) {
        sorted.push(PortfolioCoverageReason::MissingBondMetricExcludedFromWeightedAverages);
    }
    if contains_reason(reasons, PortfolioCoverageReason::PositionExcludedFromPortfolioRisk) {
        sorted.push(PortfolioCoverageReason::PositionExcludedFromPortfolioRisk);
    }
    if contains_reason(reasons, PortfolioCoverageReason::BenchmarkPositionExcludedFromPortfolioRisk) {
        sorted.push(PortfolioCoverageReason::BenchmarkPositionExcludedFromPortfolioRisk);
    }
    assert(sorted@ =~= canonical_reasons(reasons@));
    sorted
}

/// The data mode of a portfolio overview: partial when any coverage reason remains or either the
/// scope or the benchmark metrics are partial, otherwise stale when any snapshot is stale, and
/// real otherwise.
pub fn overview_data_mode(
    missing_reasons: &[PortfolioCoverageReason],
    scope_mode: PortfolioMetricDataMode,
    benchmark_mode: PortfolioMetricDataMode,
    stale: bool,
) -> (mode: PortfolioMetricDataMode)
    ensures
        mode == if missing_reasons@.len() != 0 || scope_mode == PortfolioMetricDataMode::Partial
            || benchmark_mode == PortfolioMetricDataMode::Partial {
            PortfolioMetricDataMode::Partial
        } else if stale {
            PortfolioMetricDataMode::Stale
        } else {
            PortfolioMetricDataMode::Real
        },
{
    if missing_reasons.len() != 0 || scope_mode == PortfolioMetricDataMode::Partial || benchmark_mode
        == PortfolioMetricDataMode::Partial {
        PortfolioMetricDataMode::Partial
    } else if stale {
        PortfolioMetricDataMode::Stale
    } else {
        PortfolioMetricDataMode::Real
    }
}

/// The Unit that the sole entry of `role` binds.
pub open spec fn unit_of(values: Seq<PortfolioRatesUnitAuthority>, role: PortfolioRatesUnitRole) -> (Seq<char>, u64) {
    sole_entry(values, role).reference@
}

/// In a list whose roles are distinct and complete, the entry of each role is its sole entry.
pub proof fn lemma_sole_entry(values: Seq<PortfolioRatesUnitAuthority>, role: PortfolioRatesUnitRole)
    requires
        authority_roles_distinct(values),
        authority_covers_roles(values),
    ensures
        sole_role_at(values, role, choose|i: int| #[trigger] sole_role_at(values, role, i)),
        forall|i: int| 0 <= i < values.len() && #[trigger] values[i].role == role ==> values[i]
            == sole_entry(values, role),
{
    assert(authority_has_role(values, role));
    let i = choose|i: int| 0 <= i < values.len() && #[trigger] values[i].role == role;
    assert(sole_role_at(values, role, i));
    let c = choose|c: int| #[trigger] sole_role_at(values, role, c);
    assert forall|k: int| 0 <= k < values.len() && #[trigger] values[k].role == role implies values[k]
        == sole_entry(values, role) by {
        if k != c {
            assert(values[c].role != role);
        }
    }
}

/// The kind of record an analytics authority consumed.
#[derive(Clone, Copy, Debug, PartialEq, Eq, Structural)]
pub enum PortfolioAnalyticsEvidenceKind {
    PositionSnapshot,
    CurveSnapshot,
    DataSnapshot,
    FuturesDataSnapshot,
    CurveRulePack,
    TaxRulePack,
    Unit,
    Instrument,
    Calendar,
    Valuation,
}

/// One record an analytics authority consumed, with the times it is bound to.
#[derive(Clone, Debug)]
pub struct PortfolioAnalyticsEvidenceBinding {
    pub kind: PortfolioAnalyticsEvidenceKind,
    pub object_id: String,
    pub version: Option<u64>,
    pub content_hash: Vec<u8>,
    pub observed_at: Option<MarketTime>,
    pub visible_at: Option<MarketTime>,
    pub effective_from: Option<MarketTime>,
    pub effective_to: Option<MarketTime>,
}

/// The resolved Rates inputs of one bond position.
#[derive(Clone, Debug)]
pub struct PortfolioBondRatesAuthority {
    pub position_id: String,
    pub instrument_ref: VersionRef,
    pub currency_unit: UnitRef,
    pub rate_unit: UnitRef,
    pub result_units: Vec<PortfolioRatesUnitAuthority>,
    pub remaining_years: FixedDecimal,
}

/// How the analytics authority resolved one position of a snapshot.
#[derive(Clone, Debug)]
pub enum PortfolioBondRatesAuthorityResolution {
    Bond(PortfolioBondRatesAuthority),
    NonBond { position_id: String, instrument_ref: VersionRef },
    Missing { position_id: String, instrument_ref: VersionRef },
}

/// The analytics authority resolved for one position snapshot, as the overview checks it.
#[derive(Clone, Debug)]
pub struct ResolvedPortfolioAnalyticsAuthority {
    pub units: Vec<PortfolioRatesUnitAuthority>,
    pub bond_rates: Vec<PortfolioBondRatesAuthorityResolution>,
    pub risk_dv01_unit: UnitRef,
    pub evidence: Vec<PortfolioAnalyticsEvidenceBinding>,
}

/// One imported position: its identifier and the instrument version it holds.
#[derive(Clone, Debug)]
pub struct SnapshotPosition {
    pub id: String,
    pub instrument_ref: VersionRef,
}

/// The identity, owner, times and positions of one imported position snapshot.
#[derive(Clone, Debug)]
pub struct PositionSnapshotFacts {
    pub id: String,
    pub content_hash: Vec<u8>,
    pub owner: OwnerRef,
    pub subject_ref: VersionRef,
    pub observed_at: MarketTime,
    pub visible_at: MarketTime,
    pub positions: Vec<SnapshotPosition>,
}

/// A resolution names the position it stands beside.
pub open spec fn names_position(position: SnapshotPosition, position_id: String, instrument_ref: VersionRef) -> bool {
    position.id@ == position_id@ && position.instrument_ref@ == instrument_ref@
}

/// A resolution is consistent with its position and with the authority's result Units.
pub open spec fn resolution_valid(
    position: SnapshotPosition,
    resolution: PortfolioBondRatesAuthorityResolution,
    units: Seq<PortfolioRatesUnitAuthority>,
) -> bool {
    match resolution {
        PortfolioBondRatesAuthorityResolution::Bond(bond) => {
            &&& names_position(position, bond.position_id, bond.instrument_ref)
            &&& bond.currency_unit@ == unit_of(units, PortfolioRatesUnitRole::CurrencyAmount)
            &&& bond.rate_unit@ == unit_of(units, PortfolioRatesUnitRole::Rate)
            &&& same_authorities(bond.result_units@, units)
            &&& bond.remaining_years.scaled > 0
        },
        PortfolioBondRatesAuthorityResolution::NonBond { position_id, instrument_ref } => names_position(
            position,
            position_id,
            instrument_ref,
        ),
        PortfolioBondRatesAuthorityResolution::Missing { position_id, instrument_ref } => names_position(
            position,
            position_id,
            instrument_ref,
        ),
    }
}

/// The evidence at `p` is the only position snapshot among the evidence.
pub open spec fn sole_position_input_at(evidence: Seq<PortfolioAnalyticsEvidenceBinding>, p: int) -> bool {
    &&& 0 <= p < evidence.len()
    &&& evidence[p].kind == PortfolioAnalyticsEvidenceKind::PositionSnapshot
    &&& forall|j: int|
        0 <= j < evidence.len() && j != p ==> (#[trigger] evidence[j]).kind
            != PortfolioAnalyticsEvidenceKind::PositionSnapshot
}

/// A position snapshot input binds exactly the snapshot: its identity and content, its
/// observation and visibility times, and no version or validity window.
pub open spec fn position_input_matches(input: PortfolioAnalyticsEvidenceBinding, snapshot: PositionSnapshotFacts) -> bool {
    &&& input.object_id@ == snapshot.id@
    &&& input.version is None
    &&& input.content_hash@ == snapshot.content_hash@
    &&& (input.observed_at matches Some(t) && same_time(t, snapshot.observed_at))
    &&& (input.visible_at matches Some(t) && same_time(t, snapshot.visible_at))
    &&& input.effective_from is None
    &&& input.effective_to is None
}

/// An evidence record is usable at the context's instants: observed by the valuation, visible
/// by the knowledge instant, and, when it has a validity window, in effect at the valuation.
pub open spec fn evidence_time_valid(context: NormalizedPortfolioContext, input: PortfolioAnalyticsEvidenceBinding) -> bool {
    &&& (input.observed_at matches Some(t) ==> !instant_less(context.valuation_at.instant, t.instant))
    &&& (input.visible_at matches Some(t) ==> !instant_less(context.knowledge_at.instant, t.instant))
    &&& ((input.effective_from is Some && input.effective_to is Some) ==> !instant_less(
        context.valuation_at.instant,
        input.effective_from->0.instant,
    ) && instant_less(context.valuation_at.instant, input.effective_to->0.instant))
}

/// An analytics authority fits its snapshot and context, given result Units that freeze.
pub open spec fn authority_consistent(
    context: NormalizedPortfolioContext,
    snapshot: PositionSnapshotFacts,
    authority: ResolvedPortfolioAnalyticsAuthority,
) -> bool {
    let units = authority.units@;
    let evidence = authority.evidence@;
    &&& authority.bond_rates@.len() == snapshot.positions@.len()
    &&& authority.risk_dv01_unit@ == unit_of(units, PortfolioRatesUnitRole::Dv01)
    &&& forall|i: int|
        0 <= i < snapshot.positions@.len() ==> resolution_valid(
            #[trigger] snapshot.positions@[i],
            authority.bond_rates@[i],
            units,
        )
    &&& context.currency_unit@ == unit_of(units, PortfolioRatesUnitRole::CurrencyAmount)
    &&& evidence.len() > 0
    &&& exists|p: int| #[trigger] sole_position_input_at(evidence, p) && position_input_matches(
        evidence[p],
        snapshot,
    )
    &&& forall|k: int| 0 <= k < evidence.len() ==> evidence_time_valid(context, #[trigger] evidence[k])
}

fn option_time_equal(value: &Option<MarketTime>, expected: &MarketTime) -> (equal: bool)
    ensures
        equal == (*value matches Some(t) && same_time(t, *expected)),
{
    match value {
        Some(t) => market_times_equal(t, expected),
        None => false,
    }
}

fn evidence_time_ok(context: &NormalizedPortfolioContext, input: &PortfolioAnalyticsEvidenceBinding) -> (ok:
    bool)
    ensures
        ok == evidence_time_valid(*context, *input),
{
    let observed_ok = match &input.observed_at {
        Some(t) => !instant_before(context.valuation_at.instant, t.instant),
        None => true,
    };
    let visible_ok = match &input.visible_at {
        Some(t) => !instant_before(context.knowledge_at.instant, t.instant),
        None => true,
    };
    let window_ok = match (&input.effective_from, &input.effective_to) {
        (Some(from), Some(to)) => !instant_before(context.valuation_at.instant, from.instant)
            && instant_before(context.valuation_at.instant, to.instant),
        _ => true,
    };
    observed_ok && visible_ok && window_ok
}

fn resolution_ok(
    position: &SnapshotPosition,
    resolution: &PortfolioBondRatesAuthorityResolution,
    units: &[PortfolioRatesUnitAuthority],
    currency_unit: &UnitRef,
    rate_unit: &UnitRef,
) -> (ok: bool)
    requires
        currency_unit@ == unit_of(units@, PortfolioRatesUnitRole::CurrencyAmount),
        rate_unit@ == unit_of(units@, PortfolioRatesUnitRole::Rate),
    ensures
        ok == resolution_valid(*position, *resolution, units@),
{
    match resolution {
        PortfolioBondRatesAuthorityResolution::Bond(bond) => {
            same_text(&position.id, &bond.position_id) && position.instrument_ref.same_as(
                &bond.instrument_ref,
            ) && bond.currency_unit.same_as(currency_unit) && bond.rate_unit.same_as(rate_unit)
                && same_authority_list(bond.result_units.as_slice(), units)
                && bond.remaining_years.is_positive()
        },
        PortfolioBondRatesAuthorityResolution::NonBond { position_id, instrument_ref } => {
            same_text(&position.id, position_id) && position.instrument_ref.same_as(instrument_ref)
        },
        PortfolioBondRatesAuthorityResolution::Missing { position_id, instrument_ref } => {
            same_text(&position.id, position_id) && position.instrument_ref.same_as(instrument_ref)
        },
    }
}

/// Checks the analytics authority resolved for one snapshot before any analytics run on it: a
/// validation error when its result Units do not freeze, an integrity error when it does not
/// resolve each snapshot position in order, binds other Units than it declares or than the
/// context's currency, or when its evidence lacks exactly one record of the snapshot itself or
/// holds a record that is not usable at the context's instants.
pub fn validate_analytics_authority(
    context: &NormalizedPortfolioContext,
    snapshot: &PositionSnapshotFacts,
    authority: &ResolvedPortfolioAnalyticsAuthority,
) -> (result: ApplicationResult<()>)
    ensures
        result is Ok <==> result_units_valid(authority.units@) && authority_consistent(
            *context,
            *snapshot,
            *authority,
        ),
        result matches Err(e) ==> e == if !result_units_valid(authority.units@) {
            failure(ApplicationErrorCategory::ValidationFailed)
        } else {
            failure(ApplicationErrorCategory::HashMismatch)
        },
{
    let units = portfolio_result_units(authority.units.as_slice())?;
    let ghost us = authority.units@;
    proof {
        lemma_sole_entry(us, PortfolioRatesUnitRole::CurrencyAmount);
        lemma_sole_entry(us, PortfolioRatesUnitRole::Rate);
        lemma_sole_entry(us, PortfolioRatesUnitRole::Dv01);
    }
    let currency_unit = &units.currency_amount().reference;
    let rate_unit = &units.rate().reference;
    let dv01_unit = &units.dv01().reference;
    if authority.bond_rates.len() != snapshot.positions.len() || !authority.risk_dv01_unit.same_as(
        dv01_unit,
    ) {
        return Err(integrity());
    }
    let mut i: usize = 0;
    while i < snapshot.positions.len()
        invariant
            i <= snapshot.positions@.len(),
            authority.bond_rates@.len() == snapshot.positions@.len(),
            us == authority.units@,
            result_units_valid(us),
            currency_unit@ == unit_of(us, PortfolioRatesUnitRole::CurrencyAmount),
            rate_unit@ == unit_of(us, PortfolioRatesUnitRole::Rate),
            forall|k: int|
                0 <= k < i ==> resolution_valid(
                    #[trigger] snapshot.positions@[k],
                    authority.bond_rates@[k],
                    us,
                ),
        decreases snapshot.positions.len() - i,
    {
        if !resolution_ok(
            &snapshot.positions[i],
            &authority.bond_rates[i],
            authority.units.as_slice(),
            currency_unit,
            rate_unit,
        ) {
            return Err(integrity());
        }
        i = i + 1;
    }
    if !context.currency_unit.same_as(currency_unit) || authority.evidence.len() == 0 {
        return Err(integrity());
    }
    let evidence = &authority.evidence;
    let mut position_count: usize = 0;
    let mut position_index: usize = 0;
    let mut k: usize = 0;
    while k < evidence.len()
        invariant
            k <= evidence@.len(),
            evidence@ == authority.evidence@,
            result_units_valid(authority.units@),
            position_count <= k,
            position_count == 0 ==> forall|j: int|
                0 <= j < k ==> (#[trigger] evidence@[j]).kind
                    != PortfolioAnalyticsEvidenceKind::PositionSnapshot,
            position_count == 1 ==> position_index < k && evidence@[position_index as int].kind
                == PortfolioAnalyticsEvidenceKind::PositionSnapshot && forall|j: int|
                0 <= j < k && j != position_index ==> (#[trigger] evidence@[j]).kind
                    != PortfolioAnalyticsEvidenceKind::PositionSnapshot,
            position_count >= 2 ==> forall|p: int| !#[trigger] sole_position_input_at(evidence@, p),
            forall|j: int| 0 <= j < k ==> evidence_time_valid(*context, #[trigger] evidence@[j]),
        decreases evidence.len() - k,
    {
        if !evidence_time_ok(context, &evidence[k]) {
            return Err(integrity());
        }
        if evidence[k].kind == PortfolioAnalyticsEvidenceKind::PositionSnapshot {
            if position_count == 1 {
                proof {
                    assert forall|p: int| !#[trigger] sole_position_input_at(evidence@, p) by {
                        if sole_position_input_at(evidence@, p) {
                            if p != k {
                                assert(evidence@[k as int].kind != PortfolioAnalyticsEvidenceKind::PositionSnapshot);
                            } else {
                                assert(evidence@[position_index as int].kind != PortfolioAnalyticsEvidenceKind::PositionSnapshot);
                            }
                        }
                    }
                }
            }
            if position_count < 2 {
                position_count = position_count + 1;
            }
            position_index = k;
        }
        k = k + 1;
    }
    if position_count != 1 {
        proof {
            if position_count == 0 {
                assert forall|p: int| !#[trigger] sole_position_input_at(evidence@, p) by {}
            }
        }
        return Err(integrity());
    }
    assert(sole_position_input_at(evidence@, position_index as int));
    let input = &evidence[position_index];
    let matches = same_text(&input.object_id, &snapshot.id) && input.version.is_none()
        && bytes_equal(input.content_hash.as_slice(), snapshot.content_hash.as_slice())
        && option_time_equal(&input.observed_at, &snapshot.observed_at) && option_time_equal(
        &input.visible_at,
        &snapshot.visible_at,
    ) && input.effective_from.is_none() && input.effective_to.is_none();
    proof {
        assert forall|p: int| #[trigger] sole_position_input_at(evidence@, p) implies p
            == position_index by {
            if p != position_index {
                assert(evidence@[position_index as int].kind != PortfolioAnalyticsEvidenceKind::PositionSnapshot);
            }
        }
    }
    if !matches {
        return Err(integrity());
    }
    Ok(())
}

/// The snapshot a portfolio or benchmark binds: its identity, content and times.
#[derive(Clone, Debug)]
pub struct PositionSnapshotBinding {
    pub snapshot_id: String,
    pub content_hash: Vec<u8>,
    pub observed_at: MarketTime,
    pub visible_at: MarketTime,
}

/// A loaded snapshot is the one its binding names, and belongs to the context's owner and
/// subject.
pub open spec fn loaded_snapshot_valid(
    context: NormalizedPortfolioContext,
    binding: PositionSnapshotBinding,
    snapshot: PositionSnapshotFacts,
) -> bool {
    &&& snapshot.id@ == binding.snapshot_id@
    &&& snapshot.content_hash@ == binding.content_hash@
    &&& snapshot.owner.tenant_id@ == context.owner.tenant_id@
    &&& snapshot.owner.owner_id@ == context.owner.owner_id@
    &&& snapshot.subject_ref@ == context.subject_ref@
    &&& same_time(snapshot.observed_at, binding.observed_at)
    &&& same_time(snapshot.visible_at, binding.visible_at)
}

/// Checks a loaded member or benchmark snapshot against the binding it was loaded for; an
/// integrity error on any drift.
pub fn validate_position_snapshot(
    context: &NormalizedPortfolioContext,
    binding: &PositionSnapshotBinding,
    snapshot: &PositionSnapshotFacts,
) -> (result: ApplicationResult<()>)
    ensures
        result is Ok <==> loaded_snapshot_valid(*context, *binding, *snapshot),
        result matches Err(e) ==> e == failure(ApplicationErrorCategory::HashMismatch),
{
    if !same_text(&snapshot.id, &binding.snapshot_id) || !bytes_equal(
        snapshot.content_hash.as_slice(),
        binding.content_hash.as_slice(),
    ) || !snapshot.owner.same_as(&context.owner) || !snapshot.subject_ref.same_as(&context.subject_ref)
        || !market_times_equal(&snapshot.observed_at, &binding.observed_at) || !market_times_equal(
        &snapshot.visible_at,
        &binding.visible_at,
    ) {
        return Err(integrity());
    }
    Ok(())
}

/// What the position views projected from a snapshot declare about it.
#[derive(Clone, Debug)]
pub struct PositionViewsFacts {
    pub snapshot_id: String,
    pub snapshot_content_hash: Vec<u8>,
    pub position_count: usize,
    pub imported_position_count: u64,
}

/// Views belong to the snapshot and hold one view for each of its positions.
pub open spec fn views_valid(snapshot: PositionSnapshotFacts, views: PositionViewsFacts) -> bool {
    &&& views.snapshot_id@ == snapshot.id@
    &&& views.snapshot_content_hash@ == snapshot.content_hash@
    &&& views.position_count == snapshot.positions@.len()
    &&& views.imported_position_count == snapshot.positions@.len()
}

/// Checks projected position views against their snapshot; an integrity error on any drift.
pub fn validate_views(snapshot: &PositionSnapshotFacts, views: &PositionViewsFacts) -> (result:
    ApplicationResult<()>)
    ensures
        result is Ok <==> views_valid(*snapshot, *views),
        result matches Err(e) ==> e == failure(ApplicationErrorCategory::HashMismatch),
{
    let count = snapshot.positions.len();
    if !same_text(&views.snapshot_id, &snapshot.id) || !bytes_equal(
        views.snapshot_content_hash.as_slice(),
        snapshot.content_hash.as_slice(),
    ) || views.position_count != count || views.imported_position_count != count as u64 {
        return Err(integrity());
    }
    Ok(())
}

/// Checks that a key-rate exposure was computed for the snapshot and carries totals; an
/// integrity error otherwise.
pub fn validate_risk(snapshot: &PositionSnapshotFacts, risk_snapshot_id: &String, totals: &[FactorDv01]) -> (result:
    ApplicationResult<()>)
    ensures
        result is Ok <==> risk_snapshot_id@ == snapshot.id@ && totals@.len() > 0,
        result matches Err(e) ==> e == failure(ApplicationErrorCategory::HashMismatch),
{
    if !same_text(risk_snapshot_id, &snapshot.id) || totals.len() == 0 {
        return Err(integrity());
    }
    Ok(())
}

/// Staleness only grows with knowledge: an observation that is stale at one knowledge instant
/// is stale at every later one, under the same freshness limit.
pub proof fn law_staleness_is_monotone(
    earlier: Instant,
    later: Instant,
    observed_at: Instant,
    freshness_limit_seconds: u64,
)
    requires
        age_nanos(earlier, observed_at) >= 0,
        age_nanos(earlier, observed_at) <= age_nanos(later, observed_at),
        whole_seconds(age_nanos(earlier, observed_at)) > freshness_limit_seconds,
    ensures
        whole_seconds(age_nanos(later, observed_at)) > freshness_limit_seconds,
{
    let a = age_nanos(earlier, observed_at);
    let b = age_nanos(later, observed_at);
    vstd::arithmetic::div_mod::lemma_div_is_ordered(a, b, nanos_per_second());
}

/// Sorting coverage reasons is idempotent: sorted reasons sort to themselves.
pub proof fn law_sorted_reasons_are_fixed(reasons: Seq<PortfolioCoverageReason>)
    ensures
        canonical_reasons(canonical_reasons(reasons)) == canonical_reasons(reasons),
{
    let sorted = canonical_reasons(reasons);
    broadcast use vstd::seq_lib::group_seq_properties;
    assert(sorted.contains(PortfolioCoverageReason::ShortPositionExcludedFromWeightedAverages) == reasons.contains(
        PortfolioCoverageReason::ShortPositionExcludedFromWeightedAverages,
    ));
    assert(sorted.contains(PortfolioCoverageReason::NonBondExcludedFromWeightedAverages) == reasons.contains(
        PortfolioCoverageReason::NonBondExcludedFromWeightedAverages,
    ));
    assert(sorted.contains(PortfolioCoverageReason::MissingBondMetricExcludedFromWeightedAverages)
        == reasons.contains(PortfolioCoverageReason::MissingBondMetricExcludedFromWeightedAverages));
    assert(sorted.contains(PortfolioCoverageReason::PositionExcludedFromPortfolioRisk) == reasons.contains(
        PortfolioCoverageReason::PositionExcludedFromPortfolioRisk,
    ));
    assert(sorted.contains(PortfolioCoverageReason::BenchmarkPositionExcludedFromPortfolioRisk)
        == reasons.contains(PortfolioCoverageReason::BenchmarkPositionExcludedFromPortfolioRisk));
    assert(canonical_reasons(sorted) =~= sorted);
}

/// No identifier repeats.
pub open spec fn ids_distinct(ids: Seq<String>) -> bool {
    forall|a: int, b: int|
        0 <= a < ids.len() && 0 <= b < ids.len() && a != b ==> (#[trigger] ids[a])@ != (#[trigger] ids[b])@
}

fn distinct_ids(ids: &[String]) -> (distinct: bool)
    ensures
        distinct == ids_distinct(ids@),
{
    let mut i: usize = 0;
    while i < ids.len()
        invariant
            i <= ids@.len(),
            forall|a: int, b: int|
                0 <= a < i && 0 <= b < i && a != b ==> (#[trigger] ids@[a])@ != (#[trigger] ids@[b])@,
        decreases ids@.len() - i,
    {
        let mut k: usize = 0;
        while k < i
            invariant
                i < ids@.len(),
                k <= i,
                forall|b: int| 0 <= b < k ==> (#[trigger] ids@[b])@ != ids@[i as int]@,
            decreases i - k,
        {
            if same_text(&ids[k], &ids[i]) {
                return false;
            }
            k = k + 1;
        }
        i = i + 1;
    }
    true
}

/// Across all members of a scope, no metric position and no imported position is counted
/// twice: incomplete lineage when an identifier repeats in either list.
pub fn check_scope_positions_unique(metric_position_ids: &[String], imported_position_ids: &[String]) -> (result:
    ApplicationResult<()>)
    ensures
        result is Ok <==> ids_distinct(metric_position_ids@) && ids_distinct(imported_position_ids@),
        result matches Err(e) ==> e == failure(ApplicationErrorCategory::LineageIncomplete),
{
    if !distinct_ids(metric_position_ids) || !distinct_ids(imported_position_ids) {
        return Err(lineage());
    }
    Ok(())
}

/// The coverage reasons of an overview: the scope's reasons, together with the benchmark risk
/// reason when the benchmark's key-rate calculation left a position out, each once in canonical
/// order.
pub fn overview_coverage_reasons(
    scope_reasons: &[PortfolioCoverageReason],
    benchmark_participating: u64,
    benchmark_imported: u64,
) -> (reasons: Vec<PortfolioCoverageReason>)
    ensures
        reasons@ == canonical_reasons(
            if benchmark_participating != benchmark_imported {
                scope_reasons@.push(PortfolioCoverageReason::BenchmarkPositionExcludedFromPortfolioRisk)
            } else {
                scope_reasons@
            },
        ),
{
    let mut all: Vec<PortfolioCoverageReason> = Vec::new();
    let mut i: usize = 0;
    while i < scope_reasons.len()
        invariant
            i <= scope_reasons@.len(),
            all@ == scope_reasons@.subrange(0, i as int),
        decreases scope_reasons@.len() - i,
    {
        all.push(scope_reasons[i]);
        assert(all@ =~= scope_reasons@.subrange(0, i + 1));
        i = i + 1;
    }
    assert(all@ =~= scope_reasons@);
    if benchmark_participating != benchmark_imported {
        all.push(PortfolioCoverageReason::BenchmarkPositionExcludedFromPortfolioRisk);
    }
    sort_dedup_reasons(all.as_slice())
}

/// A snapshot's staleness can be judged: it was not observed after the knowledge instant and
/// the limit fits a signed count of seconds.
pub open spec fn staleness_defined(knowledge_at: Instant, observed_at: Instant, limit: u64) -> bool {
    !observed_in_future(knowledge_at, observed_at) && limit <= i64::MAX
}

/// The snapshot observed at `observed_at` is older than the limit at the knowledge instant.
pub open spec fn older_than(knowledge_at: Instant, observed_at: Instant, limit: u64) -> bool {
    whole_seconds(age_nanos(knowledge_at, observed_at)) > limit
}

/// Whether any of an overview's snapshots — every member's, then the benchmark's, in the order
/// given — is older than the convention's freshness limit at the knowledge instant. Fails as
/// the first snapshot whose staleness cannot be judged fails: an integrity error when it was
/// observed after the knowledge instant, a validation error when the limit is too large.
pub fn overview_staleness(knowledge_at: Instant, observed: &[Instant], freshness_limit_seconds: u64) -> (result:
    ApplicationResult<bool>)
    ensures
        result is Ok <==> forall|i: int| 0 <= i < observed@.len() ==> staleness_defined(knowledge_at, #[trigger] observed@[i], freshness_limit_seconds),
        result matches Ok(stale) ==> stale == exists|i: int| 0 <= i < observed@.len() && older_than(knowledge_at, #[trigger] observed@[i], freshness_limit_seconds),
        result matches Err(e) ==> exists|i: int| {
            &&& 0 <= i < observed@.len()
            &&& !staleness_defined(knowledge_at, #[trigger] observed@[i], freshness_limit_seconds)
            &&& forall|j: int| 0 <= j < i ==> staleness_defined(knowledge_at, #[trigger] observed@[j], freshness_limit_seconds)
            &&& e == if observed_in_future(knowledge_at, observed@[i]) {
                failure(ApplicationErrorCategory::HashMismatch)
            } else {
                failure(ApplicationErrorCategory::ValidationFailed)
            }
        },
{
    let mut stale = false;
    let mut i: usize = 0;
    while i < observed.len()
        invariant
            i <= observed@.len(),
            forall|j: int| 0 <= j < i ==> staleness_defined(knowledge_at, #[trigger] observed@[j], freshness_limit_seconds),
            stale == exists|j: int| 0 <= j < i && older_than(knowledge_at, #[trigger] observed@[j], freshness_limit_seconds),
        decreases observed@.len() - i,
    {
        match is_stale(knowledge_at, observed[i], freshness_limit_seconds) {
            Ok(this) => {
                proof {
                    if this {
                        assert(older_than(knowledge_at, observed@[i as int], freshness_limit_seconds));
                    }
                    if stale {
                        let w = choose|j: int| 0 <= j < i && older_than(knowledge_at, #[trigger] observed@[j], freshness_limit_seconds);
                        assert(older_than(knowledge_at, observed@[w], freshness_limit_seconds));
                    }
                }
                stale = stale || this;
            },
            Err(e) => {
                assert(!staleness_defined(knowledge_at, observed@[i as int], freshness_limit_seconds));
                return Err(e);
            },
        }
        i = i + 1;
    }
    Ok(stale)
}

/// The wire number of a coverage reason, which orders them.
pub open spec fn reason_rank(reason: PortfolioCoverageReason) -> int {
    match reason {
        PortfolioCoverageReason::ShortPositionExcludedFromWeightedAverages => 1,
        PortfolioCoverageReason::NonBondExcludedFromWeightedAverages => 2,
        PortfolioCoverageReason::MissingBondMetricExcludedFromWeightedAverages => 3,
        PortfolioCoverageReason::PositionExcludedFromPortfolioRisk => 4,
        PortfolioCoverageReason::BenchmarkPositionExcludedFromPortfolioRisk => 5,
    }
}

/// Reasons in strictly increasing order of their number.
pub open spec fn reasons_ascending(reasons: Seq<PortfolioCoverageReason>) -> bool {
    forall|i: int, j: int| 0 <= i < j < reasons.len() ==> reason_rank(#[trigger] reasons[i]) < reason_rank(#[trigger] reasons[j])
}

proof fn lemma_append_higher(front: Seq<PortfolioCoverageReason>, tail: Seq<PortfolioCoverageReason>, bound: int)
    requires
        reasons_ascending(front),
        forall|i: int| 0 <= i < front.len() ==> reason_rank(#[trigger] front[i]) < bound,
        tail.len() <= 1,
        forall|i: int| 0 <= i < tail.len() ==> reason_rank(#[trigger] tail[i]) == bound,
    ensures
        reasons_ascending(front + tail),
        forall|i: int| 0 <= i < (front + tail).len() ==> reason_rank(#[trigger] (front + tail)[i]) <= bound,
{
    let s = front + tail;
    assert forall|i: int, j: int| 0 <= i < j < s.len() implies reason_rank(#[trigger] s[i]) < reason_rank(#[trigger] s[j]) by {
        if j >= front.len() {
            assert(s[j] == tail[j - front.len()]);
            assert(s[i] == front[i]);
        } else {
            assert(s[i] == front[i] && s[j] == front[j]);
        }
    }
    assert forall|i: int| 0 <= i < s.len() implies reason_rank(#[trigger] s[i]) <= bound by {
        if i >= front.len() {
            assert(s[i] == tail[i - front.len()]);
        } else {
            assert(s[i] == front[i]);
        }
    }
}

/// The reasons an overview reports are in strictly increasing order of their number, so none
/// repeats.
pub proof fn law_reported_reasons_ascend(reasons: Seq<PortfolioCoverageReason>)
    ensures
        reasons_ascending(canonical_reasons(reasons)),
{
    let pick = |r: PortfolioCoverageReason| if reasons.contains(r) { seq![r] } else { Seq::<PortfolioCoverageReason>::empty() };
    let s1 = pick(PortfolioCoverageReason::ShortPositionExcludedFromWeightedAverages);
    let s2 = pick(PortfolioCoverageReason::NonBondExcludedFromWeightedAverages);
    let s3 = pick(PortfolioCoverageReason::MissingBondMetricExcludedFromWeightedAverages);
    let s4 = pick(PortfolioCoverageReason::PositionExcludedFromPortfolioRisk);
    let s5 = pick(PortfolioCoverageReason::BenchmarkPositionExcludedFromPortfolioRisk);
    let e = Seq::<PortfolioCoverageReason>::empty();
    assert(e + s1 =~= s1);
    lemma_append_higher(e, s1, 1);
    lemma_append_higher(s1, s2, 2);
    lemma_append_higher(s1 + s2, s3, 3);
    lemma_append_higher(s1 + s2 + s3, s4, 4);
    lemma_append_higher(s1 + s2 + s3 + s4, s5, 5);
    assert(canonical_reasons(reasons) == s1 + s2 + s3 + s4 + s5);
}

/// A normalized context's frame: knowledge no earlier than the valuation, a period that ends
/// no earlier than it starts and ends exactly at the valuation time (instant, zone and trading
/// date), and at least one member portfolio.
pub proof fn law_context_frame_fields(context: NormalizedPortfolioContext)
    ensures
        context_frame_valid(context) ==> {
            &&& !instant_less(context.knowledge_at.instant, context.valuation_at.instant)
            &&& !instant_less(context.period_to.instant, context.period_from.instant)
            &&& context.period_to.instant == context.valuation_at.instant
            &&& context.period_to.market_timezone@ == context.valuation_at.market_timezone@
            &&& context.period_to.local_trading_date == context.valuation_at.local_trading_date
            &&& context.member_portfolios@.len() > 0
        },
{
}

/// A loaded position snapshot is the one its binding names — identifier, content hash,
/// observation and visibility times — and belongs to the context's owner and subject.
pub proof fn law_loaded_snapshot_fields(
    context: NormalizedPortfolioContext,
    binding: PositionSnapshotBinding,
    snapshot: PositionSnapshotFacts,
)
    ensures
        loaded_snapshot_valid(context, binding, snapshot) ==> {
            &&& snapshot.id@ == binding.snapshot_id@
            &&& snapshot.content_hash@ == binding.content_hash@
            &&& snapshot.owner.tenant_id@ == context.owner.tenant_id@
            &&& snapshot.owner.owner_id@ == context.owner.owner_id@
            &&& snapshot.subject_ref.id@ == context.subject_ref.id@
            &&& snapshot.subject_ref.version == context.subject_ref.version
            &&& snapshot.observed_at.instant == binding.observed_at.instant
            &&& snapshot.observed_at.market_timezone@ == binding.observed_at.market_timezone@
            &&& snapshot.observed_at.local_trading_date == binding.observed_at.local_trading_date
            &&& snapshot.visible_at.instant == binding.visible_at.instant
            &&& snapshot.visible_at.market_timezone@ == binding.visible_at.market_timezone@
            &&& snapshot.visible_at.local_trading_date == binding.visible_at.local_trading_date
        },
{
}

/// Position views project exactly the snapshot they claim: its identifier and content hash,
/// with every position counted and imported.
pub proof fn law_views_fields(snapshot: PositionSnapshotFacts, views: PositionViewsFacts)
    ensures
        views_valid(snapshot, views) ==> {
            &&& views.snapshot_id@ == snapshot.id@
            &&& views.snapshot_content_hash@ == snapshot.content_hash@
            &&& views.position_count == snapshot.positions@.len()
            &&& views.imported_position_count == snapshot.positions@.len()
        },
{
}

/// A consistent analytics authority resolves every position of the snapshot, binds exactly one
/// position-snapshot input that is this snapshot — identifier, no version, content hash,
/// observation and visibility times, no effective window — and every input was observed by
/// the valuation, visible by the knowledge instant, and in effect at the valuation.
pub proof fn law_authority_evidence_fields(
    context: NormalizedPortfolioContext,
    snapshot: PositionSnapshotFacts,
    authority: ResolvedPortfolioAnalyticsAuthority,
)
    ensures
        authority_consistent(context, snapshot, authority) ==> {
            &&& authority.bond_rates@.len() == snapshot.positions@.len()
            &&& authority.evidence@.len() > 0
            &&& exists|p: int| {
                &&& 0 <= p < authority.evidence@.len()
                &&& (#[trigger] authority.evidence@[p]).kind == PortfolioAnalyticsEvidenceKind::PositionSnapshot
                &&& authority.evidence@[p].object_id@ == snapshot.id@
                &&& authority.evidence@[p].version is None
                &&& authority.evidence@[p].content_hash@ == snapshot.content_hash@
                &&& authority.evidence@[p].observed_at is Some
                &&& authority.evidence@[p].observed_at->0.instant == snapshot.observed_at.instant
                &&& authority.evidence@[p].visible_at is Some
                &&& authority.evidence@[p].visible_at->0.instant == snapshot.visible_at.instant
                &&& authority.evidence@[p].effective_from is None
                &&& authority.evidence@[p].effective_to is None
            }
            &&& forall|k: int| 0 <= k < authority.evidence@.len() ==> {
                &&& ((#[trigger] authority.evidence@[k]).observed_at is Some ==> !instant_less(
                    context.valuation_at.instant,
                    authority.evidence@[k].observed_at->0.instant,
                ))
                &&& (authority.evidence@[k].visible_at is Some ==> !instant_less(
                    context.knowledge_at.instant,
                    authority.evidence@[k].visible_at->0.instant,
                ))
                &&& (authority.evidence@[k].effective_from is Some && authority.evidence@[k].effective_to is Some
                    ==> !instant_less(context.valuation_at.instant, authority.evidence@[k].effective_from->0.instant)
                    && instant_less(context.valuation_at.instant, authority.evidence@[k].effective_to->0.instant))
            }
        },
{
    if authority_consistent(context, snapshot, authority) {
        let evidence = authority.evidence@;
        let p = choose|p: int| #[trigger] sole_position_input_at(evidence, p) && position_input_matches(evidence[p], snapshot);
        assert(sole_position_input_at(evidence, p));
        assert(position_input_matches(evidence[p], snapshot));
        assert forall|k: int| 0 <= k < evidence.len() implies {
            &&& ((#[trigger] evidence[k]).observed_at is Some ==> !instant_less(
                context.valuation_at.instant,
                evidence[k].observed_at->0.instant,
            ))
            &&& (evidence[k].visible_at is Some ==> !instant_less(context.knowledge_at.instant, evidence[k].visible_at->0.instant))
            &&& (evidence[k].effective_from is Some && evidence[k].effective_to is Some ==> !instant_less(
                context.valuation_at.instant,
                evidence[k].effective_from->0.instant,
            ) && instant_less(context.valuation_at.instant, evidence[k].effective_to->0.instant))
        } by {
            assert(evidence_time_valid(context, evidence[k]));
        }
    }
}

} // verus!
