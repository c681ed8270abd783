use vstd::prelude::*;

use crate::aggregation::{
    PortfolioRatesUnitBindings, PortfolioRatesUnitRole, PortfolioWeightedMetricUnits, canonical_dimension,
};
use crate::decimal::{DecimalValue, FixedDecimal, converts_to_fixed, decimal_to_fixed, fixed_scaled_of};
use crate::error::{ApplicationErrorCategory, ApplicationResult, failure, integrity};
use crate::overview::{
    PortfolioBondRatesAuthorityResolution, SnapshotPosition, names_position,
    portfolio_result_units, result_units_valid,
};
use crate::primitives::{MarketTime, OwnerRef, VersionRef};
use crate::evidence::{market_times_equal, same_time};
use crate::text::same_text;

verus! {

/// What the analysis of one position comes to before any calculation: a non-bond or a bond
/// without metrics is settled at once; a bond with a Rates authority is analyzed with the
/// result Units the authority binds.
#[derive(Debug)]
pub enum BondAnalysisDecision {
    NonBond { signed_notional: FixedDecimal },
    MissingBondMetric { signed_notional: FixedDecimal },
    Analyze {
        signed_notional: FixedDecimal,
        result_units: PortfolioRatesUnitBindings,
        units: PortfolioWeightedMetricUnits,
    },
}

/// The position and instrument a resolution names.
pub open spec fn resolution_names(resolution: PortfolioBondRatesAuthorityResolution) -> (String, VersionRef) {
    match resolution {
        PortfolioBondRatesAuthorityResolution::Bond(bond) => (bond.position_id, bond.instrument_ref),
        PortfolioBondRatesAuthorityResolution::NonBond { position_id, instrument_ref } => (position_id, instrument_ref),
        PortfolioBondRatesAuthorityResolution::Missing { position_id, instrument_ref } => (position_id, instrument_ref),
    }
}

/// Decides how one position of a snapshot is analyzed. The quantity must convert exactly to the
/// fixed scale (validation failure otherwise); the resolution must name this position and its
/// instrument (integrity failure otherwise); a bond's authority must bind valid result Units
/// (validation failure otherwise). The weighted Units are the rate Unit for yield and coupon,
/// the years Unit for duration and remaining term, and the years-squared Unit for convexity.
pub fn analyze_decision(
    position: &SnapshotPosition,
    quantity: &DecimalValue,
    resolution: &PortfolioBondRatesAuthorityResolution,
) -> (result: ApplicationResult<BondAnalysisDecision>)
    ensures
        !converts_to_fixed(*quantity) ==> result == Err::<BondAnalysisDecision, _>(
            failure(ApplicationErrorCategory::ValidationFailed),
        ),
        converts_to_fixed(*quantity) && !names_position(*position, resolution_names(*resolution).0, resolution_names(*resolution).1)
            ==> result == Err::<BondAnalysisDecision, _>(failure(ApplicationErrorCategory::HashMismatch)),
        converts_to_fixed(*quantity) && names_position(*position, resolution_names(*resolution).0, resolution_names(*resolution).1)
            ==> match *resolution {
            PortfolioBondRatesAuthorityResolution::NonBond { .. } => result matches Ok(BondAnalysisDecision::NonBond { signed_notional })
                && fixed_scaled_of(quantity.coefficient as int, quantity.scale as nat) == Some(signed_notional.scaled as int),
            PortfolioBondRatesAuthorityResolution::Missing { .. } => result matches Ok(BondAnalysisDecision::MissingBondMetric { signed_notional })
                && fixed_scaled_of(quantity.coefficient as int, quantity.scale as nat) == Some(signed_notional.scaled as int),
            PortfolioBondRatesAuthorityResolution::Bond(bond) => if result_units_valid(bond.result_units@) {
                result matches Ok(BondAnalysisDecision::Analyze { signed_notional, result_units, units }) && {
                    &&& fixed_scaled_of(quantity.coefficient as int, quantity.scale as nat) == Some(signed_notional.scaled as int)
                    &&& forall|i: int| 0 <= i < bond.result_units@.len() ==> {
                        let r = result_units.requirement_for(#[trigger] bond.result_units@[i].role);
                        r.reference == bond.result_units@[i].reference && r.expected_dimension@ == canonical_dimension(bond.result_units@[i].role)
                    }
                    &&& units.ytm == result_units.requirement_for(PortfolioRatesUnitRole::Rate).reference
                    &&& units.duration == result_units.requirement_for(PortfolioRatesUnitRole::Years).reference
                    &&& units.convexity == result_units.requirement_for(PortfolioRatesUnitRole::YearsSquared).reference
                    &&& units.coupon_rate == result_units.requirement_for(PortfolioRatesUnitRole::Rate).reference
                    &&& units.remaining_years == result_units.requirement_for(PortfolioRatesUnitRole::Years).reference
                }
            } else {
                result == Err::<BondAnalysisDecision, _>(failure(ApplicationErrorCategory::ValidationFailed))
            },
        },
{
    let signed_notional = decimal_to_fixed(quantity)?;
    let (position_id, instrument_ref) = match resolution {
        PortfolioBondRatesAuthorityResolution::Bond(bond) => (&bond.position_id, &bond.instrument_ref),
        PortfolioBondRatesAuthorityResolution::NonBond { position_id, instrument_ref } => (position_id, instrument_ref),
        PortfolioBondRatesAuthorityResolution::Missing { position_id, instrument_ref } => (position_id, instrument_ref),
    };
    if !same_text(&position.id, position_id) || !position.instrument_ref.same_as(instrument_ref) {
        return Err(integrity());
    }
    match resolution {
        PortfolioBondRatesAuthorityResolution::NonBond { .. } => Ok(BondAnalysisDecision::NonBond { signed_notional }),
        PortfolioBondRatesAuthorityResolution::Missing { .. } => Ok(BondAnalysisDecision::MissingBondMetric { signed_notional }),
        PortfolioBondRatesAuthorityResolution::Bond(bond) => {
            let result_units = portfolio_result_units(bond.result_units.as_slice())?;
            let units = PortfolioWeightedMetricUnits::new(
                result_units.rate().reference.duplicate(),
                result_units.years().reference.duplicate(),
                result_units.years_squared().reference.duplicate(),
                result_units.rate().reference.duplicate(),
                result_units.years().reference.duplicate(),
            );
            Ok(BondAnalysisDecision::Analyze { signed_notional, result_units, units })
        },
    }
}

/// The materialized Rates input is the one the position asked for: the position's instrument,
/// the context's owner and the context's valuation time.
pub open spec fn materialized_input_valid(
    instrument_ref: VersionRef,
    owner: OwnerRef,
    valuation_at: MarketTime,
    input_bond: VersionRef,
    input_owner: OwnerRef,
    input_valuation_at: MarketTime,
) -> bool {
    &&& input_bond@ == instrument_ref@
    &&& input_owner.tenant_id@ == owner.tenant_id@
    &&& input_owner.owner_id@ == owner.owner_id@
    &&& same_time(input_valuation_at, valuation_at)
}

/// Checks the input the Rates materializer returned for a bond position; an integrity failure
/// on any drift.
pub fn check_materialized_input(
    instrument_ref: &VersionRef,
    owner: &OwnerRef,
    valuation_at: &MarketTime,
    input_bond: &VersionRef,
    input_owner: &OwnerRef,
    input_valuation_at: &MarketTime,
) -> (result: ApplicationResult<()>)
    ensures
        result is Ok <==> materialized_input_valid(*instrument_ref, *owner, *valuation_at, *input_bond, *input_owner, *input_valuation_at),
        result matches Err(e) ==> e == failure(ApplicationErrorCategory::HashMismatch),
{
    if !input_bond.same_as(instrument_ref) || !input_owner.same_as(owner) || !market_times_equal(
        input_valuation_at,
        valuation_at,
    ) {
        return Err(integrity());
    }
    Ok(())
}

/// A materialized Rates input is for the analyzed bond, of the request's owner, and at exactly
/// the request's valuation time.
pub proof fn law_materialized_input_fields(
    instrument_ref: VersionRef,
    owner: OwnerRef,
    valuation_at: MarketTime,
    input_bond: VersionRef,
    input_owner: OwnerRef,
    input_valuation_at: MarketTime,
)
    ensures
        materialized_input_valid(instrument_ref, owner, valuation_at, input_bond, input_owner, input_valuation_at) ==> {
            &&& input_bond.id@ == instrument_ref.id@
            &&& input_bond.version == instrument_ref.version
            &&& input_owner.tenant_id@ == owner.tenant_id@
            &&& input_owner.owner_id@ == owner.owner_id@
            &&& input_valuation_at.instant == valuation_at.instant
            &&& input_valuation_at.market_timezone@ == valuation_at.market_timezone@
            &&& input_valuation_at.local_trading_date == valuation_at.local_trading_date
        },
{
}

} // verus!
