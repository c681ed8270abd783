use vstd::prelude::*;

use crate::aggregation::{PortfolioRatesUnitRole, canonical_roles};
use crate::error::{ApplicationErrorCategory, ApplicationResult, failure, integrity, validation};
use crate::primitives::{Instant, OwnerRef, VersionRef, instant_before, instant_less};
use crate::text::{is_stable_text, stable_text};

verus! {

/// The largest page a catalog listing returns.
pub const PORTFOLIO_CATALOG_MAX_PAGE_SIZE: u32 = 1000;

/// One bounded request for a page of the portfolio catalog.
#[derive(Clone, Debug, PartialEq, Eq)]
pub struct ListPortfolioCatalogCommand<Filter> {
    filter: Filter,
    cursor: Option<String>,
    limit: u32,
}

/// A resume cursor is absent, or non-empty without surrounding white space.
pub open spec fn cursor_acceptable(cursor: Option<Seq<char>>) -> bool {
    match cursor {
        None => true,
        Some(text) => is_stable_text(text),
    }
}

/// The text of an optional string.
pub open spec fn optional_text(value: Option<String>) -> Option<Seq<char>> {
    match value {
        None => None,
        Some(text) => Some(text@),
    }
}

impl<Filter> ListPortfolioCatalogCommand<Filter> {
    pub closed spec fn spec_filter(&self) -> Filter {
        self.filter
    }

    pub closed spec fn spec_cursor(&self) -> Option<Seq<char>> {
        optional_text(self.cursor)
    }

    pub closed spec fn spec_limit(&self) -> u32 {
        self.limit
    }

    /// Builds a command: validation failure unless the limit is in `1..=1000` and a cursor, if
    /// any, is non-empty without surrounding white space.
    pub fn new(filter: Filter, cursor: Option<String>, limit: u32) -> (result: ApplicationResult<Self>)
        ensures
            result is Ok <==> (1 <= limit <= PORTFOLIO_CATALOG_MAX_PAGE_SIZE && cursor_acceptable(
                optional_text(cursor),
            )),
            result matches Err(e) ==> e == failure(ApplicationErrorCategory::ValidationFailed),
            result matches Ok(command) ==> command.spec_filter() == filter
                && command.spec_cursor() == optional_text(cursor) && command.spec_limit() == limit,
    {
        if limit == 0 || limit > PORTFOLIO_CATALOG_MAX_PAGE_SIZE {
            return Err(validation());
        }
        let cursor_valid = match &cursor {
            None => true,
            Some(text) => stable_text(text.as_str()),
        };
        if !cursor_valid {
            return Err(validation());
        }
        Ok(ListPortfolioCatalogCommand { filter, cursor, limit })
    }

    pub fn filter(&self) -> (filter: &Filter)
        ensures
            *filter == self.spec_filter(),
    {
        &self.filter
    }

    pub fn cursor(&self) -> (cursor: Option<&str>)
        ensures
            match cursor {
                None => self.spec_cursor() is None,
                Some(text) => self.spec_cursor() == Some(text@),
            },
    {
        match &self.cursor {
            None => None,
            Some(text) => Some(text.as_str()),
        }
    }

    pub fn limit(&self) -> (limit: u32)
        ensures
            limit == self.spec_limit(),
    {
        self.limit
    }
}

/// How a bond's analytics are driven: from a price or from a yield.
#[derive(Clone, Copy, Debug, PartialEq, Eq, Structural)]
pub enum AnalyticsMode {
    PriceIn,
    YieldIn,
}

/// The role of one value of a valuation.
#[derive(Clone, Copy, Debug, PartialEq, Eq, Structural)]
pub enum ValuationValueRole {
    Price,
    Yield,
    RemainingYears,
}

/// The valuation value that drives analytics in each mode.
pub open spec fn driving_role(mode: AnalyticsMode) -> ValuationValueRole {
    match mode {
        AnalyticsMode::PriceIn => ValuationValueRole::Price,
        AnalyticsMode::YieldIn => ValuationValueRole::Yield,
    }
}

/// The bound value index names the mode's driving value and the remaining-years index names
/// the remaining years.
pub open spec fn bound_roles_exact(
    mode: AnalyticsMode,
    roles: Seq<ValuationValueRole>,
    value_index: int,
    remaining_years_index: int,
) -> bool {
    &&& 0 <= value_index < roles.len()
    &&& roles[value_index] == driving_role(mode)
    &&& 0 <= remaining_years_index < roles.len()
    &&& roles[remaining_years_index] == ValuationValueRole::RemainingYears
}

/// Checks that a bond binding points at the values its analytics mode needs.
pub fn validate_bound_valuation_roles(
    mode: AnalyticsMode,
    roles: &[ValuationValueRole],
    value_index: usize,
    remaining_years_index: usize,
) -> (result: ApplicationResult<()>)
    ensures
        result is Ok <==> bound_roles_exact(
            mode,
            roles@,
            value_index as int,
            remaining_years_index as int,
        ),
        result matches Err(e) ==> e == failure(ApplicationErrorCategory::HashMismatch),
{
    let expected = match mode {
        AnalyticsMode::PriceIn => ValuationValueRole::Price,
        AnalyticsMode::YieldIn => ValuationValueRole::Yield,
    };
    if value_index >= roles.len() || roles[value_index] != expected || remaining_years_index
        >= roles.len() || roles[remaining_years_index] != ValuationValueRole::RemainingYears {
        return Err(integrity());
    }
    Ok(())
}

/// The nine Rates unit roles in canonical order.
pub fn all_rates_unit_roles() -> (roles: Vec<PortfolioRatesUnitRole>)
    ensures
        roles@ == canonical_roles(),
{
    let roles = vec![
        PortfolioRatesUnitRole::CurrencyAmount,
        PortfolioRatesUnitRole::PricePer100,
        PortfolioRatesUnitRole::Rate,
        PortfolioRatesUnitRole::Years,
        PortfolioRatesUnitRole::YearsSquared,
        PortfolioRatesUnitRole::Dv01Per100,
        PortfolioRatesUnitRole::Dv01,
        PortfolioRatesUnitRole::Dimensionless,
        PortfolioRatesUnitRole::ContractCount,
    ];
    assert(roles@ =~= canonical_roles());
    roles
}

/// A definition is in effect at an instant when it started no later and ends strictly after.
pub open spec fn in_effect(from: Instant, to: Instant, at: Instant) -> bool {
    !instant_less(at, from) && instant_less(at, to)
}

/// Checks that a definition is in effect at the valuation instant.
pub fn validate_effective(from: Instant, to: Instant, valuation_at: Instant) -> (result:
    ApplicationResult<()>)
    ensures
        result is Ok <==> in_effect(from, to, valuation_at),
        result matches Err(e) ==> e == failure(ApplicationErrorCategory::HashMismatch),
{
    if instant_before(valuation_at, from) || !instant_before(valuation_at, to) {
        return Err(integrity());
    }
    Ok(())
}

/// A position snapshot fits an analytics context: same owner and subject, visible by the
/// knowledge instant, observed by the valuation instant, and knowledge no earlier than
/// valuation.
pub open spec fn analytics_context_consistent(
    context_owner: OwnerRef,
    context_subject: VersionRef,
    valuation_at: Instant,
    knowledge_at: Instant,
    snapshot_owner: OwnerRef,
    snapshot_subject: VersionRef,
    snapshot_visible_at: Instant,
    snapshot_observed_at: Instant,
) -> bool {
    &&& snapshot_owner.tenant_id@ == context_owner.tenant_id@
    &&& snapshot_owner.owner_id@ == context_owner.owner_id@
    &&& snapshot_subject@ == context_subject@
    &&& !instant_less(knowledge_at, snapshot_visible_at)
    &&& !instant_less(valuation_at, snapshot_observed_at)
    &&& !instant_less(knowledge_at, valuation_at)
}

/// Checks an analytics context against the position snapshot it reads, after the scope's own
/// authorization of the owner.
pub fn validate_analytics_context(
    owner_check: ApplicationResult<()>,
    context_owner: &OwnerRef,
    context_subject: &VersionRef,
    valuation_at: Instant,
    knowledge_at: Instant,
    snapshot_owner: &OwnerRef,
    snapshot_subject: &VersionRef,
    snapshot_visible_at: Instant,
    snapshot_observed_at: Instant,
) -> (result: ApplicationResult<()>)
    ensures
        owner_check is Err ==> result == owner_check,
        owner_check is Ok ==> (result is Ok <==> analytics_context_consistent(
            *context_owner,
            *context_subject,
            valuation_at,
            knowledge_at,
            *snapshot_owner,
            *snapshot_subject,
            snapshot_visible_at,
            snapshot_observed_at,
        )),
        owner_check is Ok && result is Err ==> result == Err::<(), crate::error::ApplicationError>(
            failure(ApplicationErrorCategory::HashMismatch),
        ),
{
    owner_check?;
    if !snapshot_owner.same_as(context_owner) || !snapshot_subject.same_as(context_subject)
        || instant_before(knowledge_at, snapshot_visible_at) || instant_before(
        valuation_at,
        snapshot_observed_at,
    ) || instant_before(knowledge_at, valuation_at) {
        return Err(integrity());
    }
    Ok(())
}

/// An object is in effect at an instant exactly when it took effect no later than the instant
/// and expires strictly after it: an object expiring at the instant is no longer in effect.
pub proof fn law_in_effect_half_open(from: Instant, to: Instant, at: Instant)
    ensures
        in_effect(from, to, at) <==> ((from.seconds < at.seconds || (from.seconds == at.seconds
            && from.nanos <= at.nanos)) && (at.seconds < to.seconds || (at.seconds == to.seconds && at.nanos
            < to.nanos))),
        at == to ==> !in_effect(from, to, at),
{
}

/// An analytics context is consistent only when the position snapshot is the context owner's
/// and subject's, observed by the valuation, visible by the knowledge instant, and knowledge
/// does not precede the valuation.
pub proof fn law_analytics_context_fields(
    context_owner: OwnerRef,
    context_subject: VersionRef,
    valuation_at: Instant,
    knowledge_at: Instant,
    snapshot_owner: OwnerRef,
    snapshot_subject: VersionRef,
    snapshot_visible_at: Instant,
    snapshot_observed_at: Instant,
)
    ensures
        analytics_context_consistent(
            context_owner,
            context_subject,
            valuation_at,
            knowledge_at,
            snapshot_owner,
            snapshot_subject,
            snapshot_visible_at,
            snapshot_observed_at,
        ) ==> {
            &&& snapshot_owner.tenant_id@ == context_owner.tenant_id@
            &&& snapshot_owner.owner_id@ == context_owner.owner_id@
            &&& snapshot_subject.id@ == context_subject.id@
            &&& snapshot_subject.version == context_subject.version
            &&& !instant_less(knowledge_at, snapshot_visible_at)
            &&& !instant_less(valuation_at, snapshot_observed_at)
            &&& !instant_less(knowledge_at, valuation_at)
        },
{
}

/// A valuation binding is exact only when its value index names a price for price-driven
/// analytics or a yield for yield-driven analytics, and its remaining-years index names the
/// remaining years.
pub proof fn law_bound_roles_fields(mode: AnalyticsMode, roles: Seq<ValuationValueRole>, value_index: int, remaining_years_index: int)
    ensures
        bound_roles_exact(mode, roles, value_index, remaining_years_index) ==> {
            &&& 0 <= value_index < roles.len()
            &&& (mode == AnalyticsMode::PriceIn ==> roles[value_index] == ValuationValueRole::Price)
            &&& (mode == AnalyticsMode::YieldIn ==> roles[value_index] == ValuationValueRole::Yield)
            &&& 0 <= remaining_years_index < roles.len()
            &&& roles[remaining_years_index] == ValuationValueRole::RemainingYears
        },
{
}

} // verus!
