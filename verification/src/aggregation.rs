use vstd::prelude::*;

use crate::bytes::{bytes_equal, bytes_less, lex_less, text_bytes};
use crate::decimal::{
    DecimalValue, FixedDecimal, MAX_DECIMAL_SCALE, UnitRef, coefficient_at_scale, converts_to_fixed,
    decimal_to_fixed, fixed_scaled_of, fixed_to_decimal, fixed_writes_at, in_i128,
};
use crate::error::{
    ApplicationErrorCategory, ApplicationResult, failure, lineage, validation,
};
use crate::rational::{
    checked_raw_product, dot, ints, reduced_weights, scaled_values, seq_sum, weighted_average, weighted_average_coefficient,
    weighted_average_defined,
};

verus! {

/// The response roles of the Rates analytics whose Units a portfolio binds.
#[derive(Clone, Copy, Debug, PartialEq, Eq, Structural, PartialOrd, Ord)]
pub enum PortfolioRatesUnitRole {
    CurrencyAmount,
    PricePer100,
    Rate,
    Years,
    YearsSquared,
    Dv01Per100,
    Dv01,
    Dimensionless,
    ContractCount,
}

/// The nine roles in canonical order.
pub open spec fn canonical_roles() -> Seq<PortfolioRatesUnitRole> {
    seq![
        PortfolioRatesUnitRole::CurrencyAmount,
        PortfolioRatesUnitRole::PricePer100,
        PortfolioRatesUnitRole::Rate,
        PortfolioRatesUnitRole::Years,
        PortfolioRatesUnitRole::YearsSquared,
        PortfolioRatesUnitRole::Dv01Per100,
        PortfolioRatesUnitRole::Dv01,
        PortfolioRatesUnitRole::Dimensionless,
        PortfolioRatesUnitRole::ContractCount,
    ]
}

/// The dimension name that the Unit of each role must carry.
pub open spec fn canonical_dimension(role: PortfolioRatesUnitRole) -> Seq<char> {
    match role {
        PortfolioRatesUnitRole::CurrencyAmount => "currency_amount"@,
        PortfolioRatesUnitRole::PricePer100 => "price_per_100"@,
        PortfolioRatesUnitRole::Rate => "rate"@,
        PortfolioRatesUnitRole::Years => "years"@,
        PortfolioRatesUnitRole::YearsSquared => "years_squared"@,
        PortfolioRatesUnitRole::Dv01Per100 => "dv01_per_100"@,
        PortfolioRatesUnitRole::Dv01 => "dv01"@,
        PortfolioRatesUnitRole::Dimensionless => "dimensionless"@,
        PortfolioRatesUnitRole::ContractCount => "contract_count"@,
    }
}

/// The canonical dimension name of a role.
pub fn dimension_name(role: PortfolioRatesUnitRole) -> (name: &'static str)
    ensures
        name@ == canonical_dimension(role),
{
    match role {
        PortfolioRatesUnitRole::CurrencyAmount => "currency_amount",
        PortfolioRatesUnitRole::PricePer100 => "price_per_100",
        PortfolioRatesUnitRole::Rate => "rate",
        PortfolioRatesUnitRole::Years => "years",
        PortfolioRatesUnitRole::YearsSquared => "years_squared",
        PortfolioRatesUnitRole::Dv01Per100 => "dv01_per_100",
        PortfolioRatesUnitRole::Dv01 => "dv01",
        PortfolioRatesUnitRole::Dimensionless => "dimensionless",
        PortfolioRatesUnitRole::ContractCount => "contract_count",
    }
}

/// One exact Unit that a Rates response value must be expressed in.
#[derive(Clone, Debug)]
pub struct RatesUnitRequirement {
    pub reference: UnitRef,
    pub expected_dimension: String,
}

impl RatesUnitRequirement {
    pub fn new(reference: UnitRef, expected_dimension: String) -> (requirement: Self)
        ensures
            requirement.reference == reference,
            requirement.expected_dimension == expected_dimension,
    {
        RatesUnitRequirement { reference, expected_dimension }
    }

    /// An owned copy of this requirement.
    pub fn duplicate(&self) -> (copy: Self)
        ensures
            copy == *self,
    {
        RatesUnitRequirement {
            reference: self.reference.duplicate(),
            expected_dimension: self.expected_dimension.clone(),
        }
    }
}

/// The frozen Unit requirement of every Rates response role.
#[derive(Debug)]
pub struct PortfolioRatesUnitBindings {
    currency_amount: RatesUnitRequirement,
    price_per_100: RatesUnitRequirement,
    rate: RatesUnitRequirement,
    years: RatesUnitRequirement,
    years_squared: RatesUnitRequirement,
    dv01_per_100: RatesUnitRequirement,
    dv01: RatesUnitRequirement,
    dimensionless: RatesUnitRequirement,
    contract_count: RatesUnitRequirement,
}

/// The roles of the pairs are pairwise distinct.
pub open spec fn distinct_roles(values: Seq<(PortfolioRatesUnitRole, RatesUnitRequirement)>) -> bool {
    forall|i: int, j: int|
        0 <= i < values.len() && 0 <= j < values.len() && i != j ==> #[trigger] values[i].0
            != #[trigger] values[j].0
}

/// Every role occurs among the pairs.
pub open spec fn covers_all_roles(values: Seq<(PortfolioRatesUnitRole, RatesUnitRequirement)>) -> bool {
    &&& has_role(values, PortfolioRatesUnitRole::CurrencyAmount)
    &&& has_role(values, PortfolioRatesUnitRole::PricePer100)
    &&& has_role(values, PortfolioRatesUnitRole::Rate)
    &&& has_role(values, PortfolioRatesUnitRole::Years)
    &&& has_role(values, PortfolioRatesUnitRole::YearsSquared)
    &&& has_role(values, PortfolioRatesUnitRole::Dv01Per100)
    &&& has_role(values, PortfolioRatesUnitRole::Dv01)
    &&& has_role(values, PortfolioRatesUnitRole::Dimensionless)
    &&& has_role(values, PortfolioRatesUnitRole::ContractCount)
}

/// Some pair binds `role`.
pub open spec fn has_role(
    values: Seq<(PortfolioRatesUnitRole, RatesUnitRequirement)>,
    role: PortfolioRatesUnitRole,
) -> bool {
    exists|i: int| 0 <= i < values.len() && #[trigger] values[i].0 == role
}

/// Every pair binds a requirement of its role's canonical dimension.
pub open spec fn canonical_dimensions(values: Seq<(PortfolioRatesUnitRole, RatesUnitRequirement)>) -> bool {
    forall|i: int|
        0 <= i < values.len() ==> (#[trigger] values[i]).1.expected_dimension@ == canonical_dimension(
            values[i].0,
        )
}

impl PortfolioRatesUnitBindings {
    /// The requirement bound to one role.
    pub closed spec fn requirement_for(&self, role: PortfolioRatesUnitRole) -> RatesUnitRequirement {
        match role {
            PortfolioRatesUnitRole::CurrencyAmount => self.currency_amount,
            PortfolioRatesUnitRole::PricePer100 => self.price_per_100,
            PortfolioRatesUnitRole::Rate => self.rate,
            PortfolioRatesUnitRole::Years => self.years,
            PortfolioRatesUnitRole::YearsSquared => self.years_squared,
            PortfolioRatesUnitRole::Dv01Per100 => self.dv01_per_100,
            PortfolioRatesUnitRole::Dv01 => self.dv01,
            PortfolioRatesUnitRole::Dimensionless => self.dimensionless,
            PortfolioRatesUnitRole::ContractCount => self.contract_count,
        }
    }

    fn take(
        values: &Vec<(PortfolioRatesUnitRole, RatesUnitRequirement)>,
        role: PortfolioRatesUnitRole,
    ) -> (result: ApplicationResult<RatesUnitRequirement>)
        requires
            distinct_roles(values@),
        ensures
            result is Ok <==> exists|i: int|
                0 <= i < values@.len() && #[trigger] values@[i].0 == role
                    && values@[i].1.expected_dimension@ == canonical_dimension(role),
            result matches Ok(r) ==> exists|i: int|
                0 <= i < values@.len() && #[trigger] values@[i].0 == role && values@[i].1 == r,
            result matches Err(e) ==> e == failure(ApplicationErrorCategory::ValidationFailed),
    {
        let mut i: usize = 0;
        while i < values.len()
            invariant
                i <= values@.len(),
                distinct_roles(values@),
                forall|j: int| 0 <= j < i ==> (#[trigger] values@[j]).0 != role,
            decreases values.len() - i,
        {
            if values[i].0 == role {
                let expected = dimension_name(role).to_owned();
                if values[i].1.expected_dimension != expected {
                    proof {
                        assert forall|k: int|
                            0 <= k < values@.len() && #[trigger] values@[k].0 == role implies values@[k].1.expected_dimension@
                            != canonical_dimension(role) by {
                            if k != i {
                                assert(values@[k].0 != values@[i as int].0);
                            }
                        }
                    }
                    return Err(validation());
                }
                return Ok(values[i].1.duplicate());
            }
            i = i + 1;
        }
        Err(validation())
    }

    /// Freezes one exact Unit requirement for every Rates response role; fails unless all nine
    /// roles occur exactly once, each with its canonical dimension.
    pub fn new(values: Vec<(PortfolioRatesUnitRole, RatesUnitRequirement)>) -> (result:
        ApplicationResult<Self>)
        ensures
            result is Ok <==> values@.len() == 9 && distinct_roles(values@) && covers_all_roles(values@)
                && canonical_dimensions(values@),
            result matches Ok(bindings) ==> forall|i: int|
                0 <= i < values@.len() ==> bindings.requirement_for(#[trigger] values@[i].0) == values@[i].1,
            result matches Err(e) ==> e == failure(ApplicationErrorCategory::ValidationFailed),
    {
        if values.len() != 9 {
            return Err(validation());
        }
        let mut i: usize = 0;
        while i < values.len()
            invariant
                i <= values@.len(),
                forall|a: int, b: int|
                    0 <= a < i && 0 <= b < values@.len() && a != b ==> #[trigger] values@[a].0
                        != #[trigger] values@[b].0,
            decreases values.len() - i,
        {
            let mut j: usize = 0;
            while j < values.len()
                invariant
                    i < values@.len(),
                    j <= values@.len(),
                    forall|a: int, b: int|
                        0 <= a < i && 0 <= b < values@.len() && a != b ==> #[trigger] values@[a].0
                            != #[trigger] values@[b].0,
                    forall|b: int| 0 <= b < j && b != i ==> values@[i as int].0 != #[trigger] values@[b].0,
                decreases values.len() - j,
            {
                if j != i && values[i].0 == values[j].0 {
                    return Err(validation());
                }
                j = j + 1;
            }
            i = i + 1;
        }
        let ghost all = values@;
        let currency_amount = Self::take(&values, PortfolioRatesUnitRole::CurrencyAmount);
        let price_per_100 = Self::take(&values, PortfolioRatesUnitRole::PricePer100);
        let rate = Self::take(&values, PortfolioRatesUnitRole::Rate);
        let years = Self::take(&values, PortfolioRatesUnitRole::Years);
        let years_squared = Self::take(&values, PortfolioRatesUnitRole::YearsSquared);
        let dv01_per_100 = Self::take(&values, PortfolioRatesUnitRole::Dv01Per100);
        let dv01 = Self::take(&values, PortfolioRatesUnitRole::Dv01);
        let dimensionless = Self::take(&values, PortfolioRatesUnitRole::Dimensionless);
        let contract_count = Self::take(&values, PortfolioRatesUnitRole::ContractCount);
        match (
            currency_amount,
            price_per_100,
            rate,
            years,
            years_squared,
            dv01_per_100,
            dv01,
            dimensionless,
            contract_count,
        ) {
            (
                Ok(currency_amount),
                Ok(price_per_100),
                Ok(rate),
                Ok(years),
                Ok(years_squared),
                Ok(dv01_per_100),
                Ok(dv01),
                Ok(dimensionless),
                Ok(contract_count),
            ) => {
                let bindings = PortfolioRatesUnitBindings {
                    currency_amount,
                    price_per_100,
                    rate,
                    years,
                    years_squared,
                    dv01_per_100,
                    dv01,
                    dimensionless,
                    contract_count,
                };
                proof {
                    assert forall|i: int| 0 <= i < all.len() implies (#[trigger] all[i]).1.expected_dimension@
                        == canonical_dimension(all[i].0) && bindings.requirement_for(all[i].0) == all[i].1 by {
                        let role = all[i].0;
                        match role {
                            PortfolioRatesUnitRole::CurrencyAmount => {},
                            PortfolioRatesUnitRole::PricePer100 => {},
                            PortfolioRatesUnitRole::Rate => {},
                            PortfolioRatesUnitRole::Years => {},
                            PortfolioRatesUnitRole::YearsSquared => {},
                            PortfolioRatesUnitRole::Dv01Per100 => {},
                            PortfolioRatesUnitRole::Dv01 => {},
                            PortfolioRatesUnitRole::Dimensionless => {},
                            PortfolioRatesUnitRole::ContractCount => {},
                        }
                    }
                }
                Ok(bindings)
            },
            _ => Err(validation()),
        }
    }

    pub fn currency_amount(&self) -> (r: &RatesUnitRequirement)
        ensures
            *r == self.requirement_for(PortfolioRatesUnitRole::CurrencyAmount),
    {
        &self.currency_amount
    }

    pub fn price_per_100(&self) -> (r: &RatesUnitRequirement)
        ensures
            *r == self.requirement_for(PortfolioRatesUnitRole::PricePer100),
    {
        &self.price_per_100
    }

    pub fn rate(&self) -> (r: &RatesUnitRequirement)
        ensures
            *r == self.requirement_for(PortfolioRatesUnitRole::Rate),
    {
        &self.rate
    }

    pub fn years(&self) -> (r: &RatesUnitRequirement)
        ensures
            *r == self.requirement_for(PortfolioRatesUnitRole::Years),
    {
        &self.years
    }

    pub fn years_squared(&self) -> (r: &RatesUnitRequirement)
        ensures
            *r == self.requirement_for(PortfolioRatesUnitRole::YearsSquared),
    {
        &self.years_squared
    }

    pub fn dv01_per_100(&self) -> (r: &RatesUnitRequirement)
        ensures
            *r == self.requirement_for(PortfolioRatesUnitRole::Dv01Per100),
    {
        &self.dv01_per_100
    }

    pub fn dv01(&self) -> (r: &RatesUnitRequirement)
        ensures
            *r == self.requirement_for(PortfolioRatesUnitRole::Dv01),
    {
        &self.dv01
    }

    pub fn dimensionless(&self) -> (r: &RatesUnitRequirement)
        ensures
            *r == self.requirement_for(PortfolioRatesUnitRole::Dimensionless),
    {
        &self.dimensionless
    }

    pub fn contract_count(&self) -> (r: &RatesUnitRequirement)
        ensures
            *r == self.requirement_for(PortfolioRatesUnitRole::ContractCount),
    {
        &self.contract_count
    }

    /// All nine requirements in canonical role order.
    pub fn requirements(&self) -> (requirements: Vec<RatesUnitRequirement>)
        ensures
            requirements@.len() == 9,
            forall|i: int|
                0 <= i < 9 ==> #[trigger] requirements@[i] == self.requirement_for(canonical_roles()[i]),
    {
        let mut requirements = Vec::new();
        requirements.push(self.currency_amount.duplicate());
        requirements.push(self.price_per_100.duplicate());
        requirements.push(self.rate.duplicate());
        requirements.push(self.years.duplicate());
        requirements.push(self.years_squared.duplicate());
        requirements.push(self.dv01_per_100.duplicate());
        requirements.push(self.dv01.duplicate());
        requirements.push(self.dimensionless.duplicate());
        requirements.push(self.contract_count.duplicate());
        requirements
    }
}


/// The exact output scale of every portfolio metric Unit.
#[derive(Clone, Copy, Debug, PartialEq, Eq, Structural)]
pub struct PortfolioMetricOutputScales {
    money: u32,
    rate: u32,
    years: u32,
    years_squared: u32,
    dv01: u32,
}

impl PortfolioMetricOutputScales {
    pub closed spec fn spec_money(self) -> u32 {
        self.money
    }

    pub closed spec fn spec_rate(self) -> u32 {
        self.rate
    }

    pub closed spec fn spec_years(self) -> u32 {
        self.years
    }

    pub closed spec fn spec_years_squared(self) -> u32 {
        self.years_squared
    }

    pub closed spec fn spec_dv01(self) -> u32 {
        self.dv01
    }

    /// Freezes the output scales; every scale must lie within the decimal boundary.
    pub fn new(money: u32, rate: u32, years: u32, years_squared: u32, dv01: u32) -> (result:
        ApplicationResult<Self>)
        ensures
            result is Ok <==> money <= MAX_DECIMAL_SCALE && rate <= MAX_DECIMAL_SCALE && years
                <= MAX_DECIMAL_SCALE && years_squared <= MAX_DECIMAL_SCALE && dv01 <= MAX_DECIMAL_SCALE,
            result matches Ok(scales) ==> scales.spec_money() == money && scales.spec_rate() == rate
                && scales.spec_years() == years && scales.spec_years_squared() == years_squared
                && scales.spec_dv01() == dv01,
            result matches Err(e) ==> e == failure(ApplicationErrorCategory::ValidationFailed),
    {
        if money > MAX_DECIMAL_SCALE || rate > MAX_DECIMAL_SCALE || years > MAX_DECIMAL_SCALE
            || years_squared > MAX_DECIMAL_SCALE || dv01 > MAX_DECIMAL_SCALE {
            return Err(validation());
        }
        Ok(PortfolioMetricOutputScales { money, rate, years, years_squared, dv01 })
    }

    pub fn money(self) -> (scale: u32)
        ensures
            scale == self.spec_money(),
    {
        self.money
    }

    pub fn rate(self) -> (scale: u32)
        ensures
            scale == self.spec_rate(),
    {
        self.rate
    }

    pub fn years(self) -> (scale: u32)
        ensures
            scale == self.spec_years(),
    {
        self.years
    }

    pub fn years_squared(self) -> (scale: u32)
        ensures
            scale == self.spec_years_squared(),
    {
        self.years_squared
    }

    pub fn dv01(self) -> (scale: u32)
        ensures
            scale == self.spec_dv01(),
    {
        self.dv01
    }
}

/// How complete the aggregated portfolio metrics are.
#[derive(Clone, Copy, Debug, PartialEq, Eq, Structural)]
pub enum PortfolioMetricDataMode {
    Real,
    Partial,
    Stale,
}

/// Why a position does not take part in an aggregate.
#[derive(Clone, Copy, Debug, PartialEq, Eq, Structural, PartialOrd, Ord)]
pub enum PortfolioCoverageReason {
    ShortPositionExcludedFromWeightedAverages,
    NonBondExcludedFromWeightedAverages,
    MissingBondMetricExcludedFromWeightedAverages,
    PositionExcludedFromPortfolioRisk,
    BenchmarkPositionExcludedFromPortfolioRisk,
}

/// The stable wire code of a coverage reason.
pub fn coverage_reason_code(reason: PortfolioCoverageReason) -> (code: u8)
    ensures
        code == match reason {
            PortfolioCoverageReason::ShortPositionExcludedFromWeightedAverages => 1u8,
            PortfolioCoverageReason::NonBondExcludedFromWeightedAverages => 2u8,
            PortfolioCoverageReason::MissingBondMetricExcludedFromWeightedAverages => 3u8,
            PortfolioCoverageReason::PositionExcludedFromPortfolioRisk => 4u8,
            PortfolioCoverageReason::BenchmarkPositionExcludedFromPortfolioRisk => 5u8,
        },
{
    match reason {
        PortfolioCoverageReason::ShortPositionExcludedFromWeightedAverages => 1,
        PortfolioCoverageReason::NonBondExcludedFromWeightedAverages => 2,
        PortfolioCoverageReason::MissingBondMetricExcludedFromWeightedAverages => 3,
        PortfolioCoverageReason::PositionExcludedFromPortfolioRisk => 4,
        PortfolioCoverageReason::BenchmarkPositionExcludedFromPortfolioRisk => 5,
    }
}

/// The stable wire code of a data mode.
pub fn metric_mode_code(mode: PortfolioMetricDataMode) -> (code: u8)
    ensures
        code == match mode {
            PortfolioMetricDataMode::Real => 1u8,
            PortfolioMetricDataMode::Partial => 2u8,
            PortfolioMetricDataMode::Stale => 3u8,
        },
{
    match mode {
        PortfolioMetricDataMode::Real => 1,
        PortfolioMetricDataMode::Partial => 2,
        PortfolioMetricDataMode::Stale => 3,
    }
}

/// How many imported positions took part in the weighted averages, and why others did not.
#[derive(Debug)]
pub struct PortfolioMetricCoverage {
    imported_position_count: u64,
    weighted_average_participating_position_count: u64,
    missing_reasons: Vec<PortfolioCoverageReason>,
}

impl PortfolioMetricCoverage {
    pub closed spec fn spec_imported_position_count(&self) -> u64 {
        self.imported_position_count
    }

    pub closed spec fn spec_participating_position_count(&self) -> u64 {
        self.weighted_average_participating_position_count
    }

    pub closed spec fn spec_missing_reasons(&self) -> Seq<PortfolioCoverageReason> {
        self.missing_reasons@
    }

    pub fn imported_position_count(&self) -> (count: u64)
        ensures
            count == self.spec_imported_position_count(),
    {
        self.imported_position_count
    }

    pub fn weighted_average_participating_position_count(&self) -> (count: u64)
        ensures
            count == self.spec_participating_position_count(),
    {
        self.weighted_average_participating_position_count
    }

    pub fn missing_reasons(&self) -> (reasons: &[PortfolioCoverageReason])
        ensures
            reasons@ == self.spec_missing_reasons(),
    {
        self.missing_reasons.as_slice()
    }
}

/// The Units of the five weighted measures of a bond.
#[derive(Clone, Debug)]
pub struct PortfolioWeightedMetricUnits {
    pub ytm: UnitRef,
    pub duration: UnitRef,
    pub convexity: UnitRef,
    pub coupon_rate: UnitRef,
    pub remaining_years: UnitRef,
}

impl View for PortfolioWeightedMetricUnits {
    type V = Seq<(Seq<char>, u64)>;

    open spec fn view(&self) -> Seq<(Seq<char>, u64)> {
        seq![self.ytm@, self.duration@, self.convexity@, self.coupon_rate@, self.remaining_years@]
    }
}

impl PortfolioWeightedMetricUnits {
    pub fn new(
        ytm: UnitRef,
        duration: UnitRef,
        convexity: UnitRef,
        coupon_rate: UnitRef,
        remaining_years: UnitRef,
    ) -> (units: Self)
        ensures
            units.ytm == ytm,
            units.duration == duration,
            units.convexity == convexity,
            units.coupon_rate == coupon_rate,
            units.remaining_years == remaining_years,
    {
        PortfolioWeightedMetricUnits { ytm, duration, convexity, coupon_rate, remaining_years }
    }

    /// Whether both name the same five Units.
    pub fn same_as(&self, other: &PortfolioWeightedMetricUnits) -> (same: bool)
        ensures
            same == (self@ == other@),
    {
        let same = self.ytm.same_as(&other.ytm) && self.duration.same_as(&other.duration)
            && self.convexity.same_as(&other.convexity) && self.coupon_rate.same_as(
            &other.coupon_rate,
        ) && self.remaining_years.same_as(&other.remaining_years);
        proof {
            if !same {
                if self@ == other@ {
                    assert(self@[0] == other@[0]);
                    assert(self@[1] == other@[1]);
                    assert(self@[2] == other@[2]);
                    assert(self@[3] == other@[3]);
                    assert(self@[4] == other@[4]);
                }
            } else {
                assert(self@ =~= other@);
            }
        }
        same
    }
}

/// The point-in-time measures of one analysed bond.
#[derive(Debug)]
pub struct PortfolioBondMetricFacts {
    yield_to_maturity: FixedDecimal,
    modified_duration: FixedDecimal,
    convexity: FixedDecimal,
    coupon_rate: FixedDecimal,
    remaining_years: FixedDecimal,
    units: PortfolioWeightedMetricUnits,
}

impl PortfolioBondMetricFacts {
    #[verifier::type_invariant]
    spec fn measures_are_valid(self) -> bool {
        &&& self.yield_to_maturity.scaled > 0
        &&& self.modified_duration.scaled > 0
        &&& self.convexity.scaled > 0
        &&& self.coupon_rate.scaled >= 0
        &&& self.remaining_years.scaled > 0
    }

    pub closed spec fn spec_yield_to_maturity(&self) -> int {
        self.yield_to_maturity.scaled as int
    }

    pub closed spec fn spec_modified_duration(&self) -> int {
        self.modified_duration.scaled as int
    }

    pub closed spec fn spec_convexity(&self) -> int {
        self.convexity.scaled as int
    }

    pub closed spec fn spec_coupon_rate(&self) -> int {
        self.coupon_rate.scaled as int
    }

    pub closed spec fn spec_remaining_years(&self) -> int {
        self.remaining_years.scaled as int
    }

    pub closed spec fn spec_units(&self) -> PortfolioWeightedMetricUnits {
        self.units
    }

    /// Every measure must be positive, except the coupon rate which may be zero.
    pub fn new(
        yield_to_maturity: FixedDecimal,
        modified_duration: FixedDecimal,
        convexity: FixedDecimal,
        coupon_rate: FixedDecimal,
        remaining_years: FixedDecimal,
        units: PortfolioWeightedMetricUnits,
    ) -> (result: ApplicationResult<Self>)
        ensures
            result is Ok <==> yield_to_maturity.scaled > 0 && modified_duration.scaled > 0
                && convexity.scaled > 0 && coupon_rate.scaled >= 0 && remaining_years.scaled > 0,
            result matches Ok(facts) ==> facts.spec_yield_to_maturity() == yield_to_maturity.scaled
                && facts.spec_modified_duration() == modified_duration.scaled
                && facts.spec_convexity() == convexity.scaled && facts.spec_coupon_rate()
                == coupon_rate.scaled && facts.spec_remaining_years() == remaining_years.scaled
                && facts.spec_units() == units,
            result matches Err(e) ==> e == failure(ApplicationErrorCategory::ValidationFailed),
    {
        if !yield_to_maturity.is_positive() || !modified_duration.is_positive()
            || !convexity.is_positive() || !coupon_rate.is_non_negative()
            || !remaining_years.is_positive() {
            return Err(validation());
        }
        Ok(
            PortfolioBondMetricFacts {
                yield_to_maturity,
                modified_duration,
                convexity,
                coupon_rate,
                remaining_years,
                units,
            },
        )
    }

    pub fn yield_to_maturity(&self) -> (value: FixedDecimal)
        ensures
            value.scaled == self.spec_yield_to_maturity(),
    {
        self.yield_to_maturity
    }

    pub fn modified_duration(&self) -> (value: FixedDecimal)
        ensures
            value.scaled == self.spec_modified_duration(),
    {
        self.modified_duration
    }

    pub fn convexity(&self) -> (value: FixedDecimal)
        ensures
            value.scaled == self.spec_convexity(),
    {
        self.convexity
    }

    pub fn coupon_rate(&self) -> (value: FixedDecimal)
        ensures
            value.scaled == self.spec_coupon_rate(),
    {
        self.coupon_rate
    }

    pub fn remaining_years(&self) -> (value: FixedDecimal)
        ensures
            value.scaled == self.spec_remaining_years(),
    {
        self.remaining_years
    }

    pub fn units(&self) -> (units: &PortfolioWeightedMetricUnits)
        ensures
            *units == self.spec_units(),
    {
        &self.units
    }
}

/// Whether a position takes part in the weighted averages.
#[derive(Debug)]
pub enum PortfolioWeightedMetricEligibility {
    Bond(Box<PortfolioBondMetricFacts>),
    NonBond,
    MissingBondMetric,
}

/// The signed totals of one imported position.
#[derive(Debug)]
pub struct PortfolioMetricPosition {
    position_id: String,
    market_value: DecimalValue,
    economic_pnl: DecimalValue,
    signed_notional: FixedDecimal,
    weighted_metric_eligibility: PortfolioWeightedMetricEligibility,
}

impl PortfolioMetricPosition {
    #[verifier::type_invariant]
    spec fn totals_are_exact(self) -> bool {
        &&& converts_to_fixed(self.market_value)
        &&& converts_to_fixed(self.economic_pnl)
        &&& self.market_value.unit@ == self.economic_pnl.unit@
    }

    pub closed spec fn spec_position_id(&self) -> Seq<char> {
        self.position_id@
    }

    pub closed spec fn spec_market_value(&self) -> DecimalValue {
        self.market_value
    }

    pub closed spec fn spec_economic_pnl(&self) -> DecimalValue {
        self.economic_pnl
    }

    pub closed spec fn spec_signed_notional(&self) -> int {
        self.signed_notional.scaled as int
    }

    pub closed spec fn spec_eligibility(&self) -> &PortfolioWeightedMetricEligibility {
        &self.weighted_metric_eligibility
    }

    /// Binds imported signed totals to the exact per-bond analysis result; both totals must
    /// share one Unit and be exact at scale twelve.
    pub fn from_totals(
        position_id: String,
        market_value: DecimalValue,
        economic_pnl: DecimalValue,
        signed_notional: FixedDecimal,
        weighted_metric_eligibility: PortfolioWeightedMetricEligibility,
    ) -> (result: ApplicationResult<Self>)
        ensures
            result is Ok <==> market_value.unit@ == economic_pnl.unit@ && converts_to_fixed(market_value)
                && converts_to_fixed(economic_pnl),
            result matches Ok(position) ==> position.spec_position_id() == position_id@
                && position.spec_market_value() == market_value && position.spec_economic_pnl()
                == economic_pnl && position.spec_signed_notional() == signed_notional.scaled
                && position.spec_eligibility() == &weighted_metric_eligibility,
            result matches Err(e) ==> e == failure(ApplicationErrorCategory::ValidationFailed),
    {
        if !market_value.unit.same_as(&economic_pnl.unit) {
            return Err(validation());
        }
        if let Err(e) = decimal_to_fixed(&market_value) {
            return Err(e);
        }
        if let Err(e) = decimal_to_fixed(&economic_pnl) {
            return Err(e);
        }
        Ok(
            PortfolioMetricPosition {
                position_id,
                market_value,
                economic_pnl,
                signed_notional,
                weighted_metric_eligibility,
            },
        )
    }

    pub fn position_id(&self) -> (id: &String)
        ensures
            id@ == self.spec_position_id(),
    {
        &self.position_id
    }

    pub fn market_value(&self) -> (value: &DecimalValue)
        ensures
            *value == self.spec_market_value(),
    {
        &self.market_value
    }

    pub fn economic_pnl(&self) -> (value: &DecimalValue)
        ensures
            *value == self.spec_economic_pnl(),
    {
        &self.economic_pnl
    }

    pub fn signed_notional(&self) -> (value: FixedDecimal)
        ensures
            value.scaled == self.spec_signed_notional(),
    {
        self.signed_notional
    }

    pub fn weighted_metric_eligibility(&self) -> (eligibility: &PortfolioWeightedMetricEligibility)
        ensures
            eligibility == self.spec_eligibility(),
    {
        &self.weighted_metric_eligibility
    }
}


/// The DV01 of one key-rate factor as returned by the portfolio risk seam.
#[derive(Debug)]
pub struct FactorDv01 {
    pub factor_id: String,
    pub factor_definition_hash: Vec<u8>,
    pub value: FixedDecimal,
    pub unit: UnitRef,
}

impl FactorDv01 {
    /// An owned copy of this factor value.
    pub fn duplicate(&self) -> (copy: Self)
        ensures
            copy.factor_id == self.factor_id,
            copy.factor_definition_hash@ == self.factor_definition_hash@,
            copy.value == self.value,
            copy.unit == self.unit,
    {
        FactorDv01 {
            factor_id: self.factor_id.clone(),
            factor_definition_hash: self.factor_definition_hash.clone(),
            value: self.value,
            unit: self.unit.duplicate(),
        }
    }
}

/// The aggregate point-in-time metrics of a portfolio.
#[derive(Debug)]
pub struct PortfolioBasicMetrics {
    pub market_value: DecimalValue,
    pub economic_pnl: DecimalValue,
    pub weighted_ytm: Option<DecimalValue>,
    pub modified_duration: Option<DecimalValue>,
    pub convexity: Option<DecimalValue>,
    pub weighted_coupon_rate: Option<DecimalValue>,
    pub weighted_remaining_years: Option<DecimalValue>,
    pub dv01: DecimalValue,
}

/// The key-rate DV01 totals and their parallel sum.
#[derive(Debug)]
pub struct PortfolioKrdSummary {
    pub totals: Vec<FactorDv01>,
    pub parallel_dv01: DecimalValue,
}

/// The outcome of aggregating one portfolio's positions.
#[derive(Debug)]
pub struct PortfolioMetricAggregation {
    pub data_mode: PortfolioMetricDataMode,
    pub basic_metrics: PortfolioBasicMetrics,
    pub krd_summary: PortfolioKrdSummary,
    pub coverage: PortfolioMetricCoverage,
}

/// The exact scale-twelve value of a decimal that converts exactly.
pub open spec fn fixed_value(value: DecimalValue) -> int {
    fixed_scaled_of(value.coefficient as int, value.scale as nat)->0
}

/// Every prefix sum of the values lies within `i128`.
pub open spec fn prefix_sums_fit(values: Seq<int>) -> bool {
    forall|i: int| 0 <= i <= values.len() ==> in_i128(#[trigger] seq_sum(values.subrange(0, i)))
}

/// Sums a non-empty sequence of scaled integers, failing on overflow.
fn checked_total(values: &Vec<i128>) -> (result: ApplicationResult<i128>)
    requires
        values@.len() >= 1,
    ensures
        result is Ok <==> prefix_sums_fit(ints(values@)),
        result matches Ok(total) ==> total == seq_sum(ints(values@)),
        result matches Err(e) ==> e == failure(ApplicationErrorCategory::ValidationFailed),
{
    let ghost all = ints(values@);
    let mut total: i128 = values[0];
    let mut i: usize = 1;
    proof {
        assert(all.subrange(0, 0) =~= Seq::<int>::empty());
        assert(all.subrange(0, 1).drop_last() =~= all.subrange(0, 0));
        assert(all[0] == values@[0] as int);
        assert(seq_sum(all.subrange(0, 0)) == 0);
        assert(seq_sum(all.subrange(0, 1)) == all[0]);
        assert forall|k: int| 0 <= k <= 1 implies in_i128(#[trigger] seq_sum(all.subrange(0, k))) by {
            if k == 0 {
            } else {
            }
        }
    }
    while i < values.len()
        invariant
            1 <= i <= values@.len(),
            all == ints(values@),
            total == seq_sum(all.subrange(0, i as int)),
            forall|k: int| 0 <= k <= i ==> in_i128(#[trigger] seq_sum(all.subrange(0, k))),
        decreases values.len() - i,
    {
        proof {
            assert(all.subrange(0, i + 1).drop_last() =~= all.subrange(0, i as int));
            assert(all[i as int] == values@[i as int] as int);
        }
        total = match total.checked_add(values[i]) {
            Some(next) => next,
            None => {
                proof {
                    assert(seq_sum(all.subrange(0, i + 1)) == total + values@[i as int]);
                    assert(!in_i128(seq_sum(all.subrange(0, i + 1))));
                }
                return Err(validation());
            },
        };
        proof {
            assert(seq_sum(all.subrange(0, i + 1)) == total);
        }
        i = i + 1;
    }
    proof {
        assert(all.subrange(0, values@.len() as int) =~= all);
    }
    Ok(total)
}

/// The scale-twelve market values of the positions.
pub open spec fn market_values(positions: Seq<PortfolioMetricPosition>) -> Seq<int> {
    Seq::new(positions.len(), |i: int| fixed_value(positions[i].spec_market_value()))
}

/// The scale-twelve economic P&L of the positions.
pub open spec fn economic_pnls(positions: Seq<PortfolioMetricPosition>) -> Seq<int> {
    Seq::new(positions.len(), |i: int| fixed_value(positions[i].spec_economic_pnl()))
}

/// The positions are non-empty, strictly ordered by id, and share one money Unit.
pub open spec fn positions_valid(positions: Seq<PortfolioMetricPosition>) -> bool {
    &&& positions.len() >= 1
    &&& forall|i: int|
        0 <= i < positions.len() - 1 ==> lex_less(
            text_bytes(#[trigger] positions[i].spec_position_id()),
            text_bytes(positions[i + 1].spec_position_id()),
        )
    &&& forall|i: int|
        0 <= i < positions.len() ==> (#[trigger] positions[i]).spec_market_value().unit@
            == positions[0].spec_market_value().unit@ && positions[i].spec_economic_pnl().unit@
            == positions[0].spec_market_value().unit@
}

/// The factor values of a KRD vector.
pub open spec fn factor_values(totals: Seq<FactorDv01>) -> Seq<int> {
    Seq::new(totals.len(), |i: int| totals[i].value.scaled as int)
}

/// A KRD vector is non-empty, in one Unit, and names each factor once.
pub open spec fn krd_valid(totals: Seq<FactorDv01>) -> bool {
    &&& totals.len() >= 1
    &&& forall|i: int| 0 <= i < totals.len() ==> (#[trigger] totals[i]).unit@ == totals[0].unit@
    &&& forall|i: int, j: int|
        0 <= i < totals.len() && 0 <= j < totals.len() && i != j ==> (#[trigger] totals[i]).factor_id@
            != (#[trigger] totals[j]).factor_id@
}

/// Validates the positions before any arithmetic.
fn validate_positions(positions: &[PortfolioMetricPosition]) -> (result: ApplicationResult<()>)
    ensures
        result is Ok <==> positions_valid(positions@),
        result matches Err(e) ==> e == failure(ApplicationErrorCategory::ValidationFailed),
{
    if positions.len() == 0 {
        return Err(validation());
    }
    let mut i: usize = 0;
    while i + 1 < positions.len()
        invariant
            positions@.len() >= 1,
            i < positions@.len(),
            forall|k: int|
                0 <= k < i ==> lex_less(
                    text_bytes(#[trigger] positions@[k].spec_position_id()),
                    text_bytes(positions@[k + 1].spec_position_id()),
                ),
        decreases positions.len() - i,
    {
        if !bytes_less(
            positions[i].position_id().as_str().as_bytes(),
            positions[i + 1].position_id().as_str().as_bytes(),
        ) {
            return Err(validation());
        }
        i = i + 1;
    }
    let unit = &positions[0].market_value().unit;
    let mut j: usize = 0;
    while j < positions.len()
        invariant
            positions@.len() >= 1,
            j <= positions@.len(),
            unit@ == positions@[0].spec_market_value().unit@,
            forall|k: int|
                0 <= k < positions@.len() - 1 ==> lex_less(
                    text_bytes(#[trigger] positions@[k].spec_position_id()),
                    text_bytes(positions@[k + 1].spec_position_id()),
                ),
            forall|k: int|
                0 <= k < j ==> (#[trigger] positions@[k]).spec_market_value().unit@ == unit@
                    && positions@[k].spec_economic_pnl().unit@ == unit@,
        decreases positions.len() - j,
    {
        if !positions[j].market_value().unit.same_as(unit) || !positions[j].economic_pnl().unit.same_as(
            unit,
        ) {
            return Err(validation());
        }
        j = j + 1;
    }
    Ok(())
}


/// Sums the KRD vector into its parallel DV01 written at `output_scale`.
pub fn krd_summary(totals: &[FactorDv01], output_scale: u32) -> (result: ApplicationResult<
    (PortfolioKrdSummary, DecimalValue),
>)
    ensures
        result is Ok <==> krd_valid(totals@) && prefix_sums_fit(factor_values(totals@))
            && fixed_writes_at(seq_sum(factor_values(totals@)), output_scale as nat),
        result matches Ok((summary, dv01)) ==> {
            &&& coefficient_at_scale(seq_sum(factor_values(totals@)), output_scale as nat) == Some(
                dv01.coefficient as int,
            )
            &&& dv01.scale == output_scale
            &&& dv01.unit == totals@[0].unit
            &&& summary.parallel_dv01 == dv01
            &&& summary.totals@.len() == totals@.len()
            &&& forall|i: int|
                0 <= i < totals@.len() ==> (#[trigger] summary.totals@[i]).factor_id
                    == totals@[i].factor_id && summary.totals@[i].value == totals@[i].value
                    && summary.totals@[i].unit == totals@[i].unit
                    && summary.totals@[i].factor_definition_hash@ == totals@[i].factor_definition_hash@
        },
        result matches Err(e) ==> (totals@.len() == 0 ==> e == failure(
            ApplicationErrorCategory::ValidationFailed,
        )) && (totals@.len() > 0 && !krd_valid(totals@) ==> e == failure(
            ApplicationErrorCategory::LineageIncomplete,
        )) && (krd_valid(totals@) ==> e == failure(ApplicationErrorCategory::ValidationFailed)),
{
    if totals.len() == 0 {
        return Err(validation());
    }
    let mut i: usize = 0;
    while i < totals.len()
        invariant
            totals@.len() >= 1,
            i <= totals@.len(),
            forall|k: int| 0 <= k < i ==> (#[trigger] totals@[k]).unit@ == totals@[0].unit@,
            forall|a: int, b: int|
                0 <= a < i && 0 <= b < i && a != b ==> (#[trigger] totals@[a]).factor_id@
                    != (#[trigger] totals@[b]).factor_id@,
        decreases totals.len() - i,
    {
        if !totals[i].unit.same_as(&totals[0].unit) {
            return Err(lineage());
        }
        let mut j: usize = 0;
        while j < i
            invariant
                i < totals@.len(),
                j <= i,
                forall|b: int| 0 <= b < j ==> totals@[i as int].factor_id@ != (#[trigger] totals@[b]).factor_id@,
            decreases i - j,
        {
            if totals[j].factor_id == totals[i].factor_id {
                return Err(lineage());
            }
            j = j + 1;
        }
        i = i + 1;
    }
    let mut values: Vec<i128> = Vec::new();
    let mut copies: Vec<FactorDv01> = Vec::new();
    let mut k: usize = 0;
    while k < totals.len()
        invariant
            k <= totals@.len(),
            values@.len() == k,
            copies@.len() == k,
            forall|m: int| 0 <= m < k ==> (#[trigger] values@[m]) == totals@[m].value.scaled,
            forall|m: int|
                0 <= m < k ==> (#[trigger] copies@[m]).factor_id == totals@[m].factor_id
                    && copies@[m].value == totals@[m].value && copies@[m].unit == totals@[m].unit
                    && copies@[m].factor_definition_hash@ == totals@[m].factor_definition_hash@,
        decreases totals.len() - k,
    {
        values.push(totals[k].value.scaled());
        copies.push(totals[k].duplicate());
        k = k + 1;
    }
    proof {
        assert(ints(values@) =~= factor_values(totals@));
    }
    let parallel = match checked_total(&values) {
        Ok(total) => total,
        Err(e) => {
            return Err(e);
        },
    };
    let parallel_dv01 = match fixed_to_decimal(
        FixedDecimal::from_scaled(parallel),
        output_scale,
        totals[0].unit.duplicate(),
    ) {
        Ok(value) => value,
        Err(e) => {
            return Err(e);
        },
    };
    let summary = PortfolioKrdSummary { totals: copies, parallel_dv01: parallel_dv01.duplicate() };
    Ok((summary, parallel_dv01))
}


/// The bond measures a position carries; meaningful only for a bond position.
pub open spec fn bond_facts(position: PortfolioMetricPosition) -> PortfolioBondMetricFacts {
    match *position.spec_eligibility() {
        PortfolioWeightedMetricEligibility::Bond(facts) => *facts,
        _ => arbitrary(),
    }
}

pub open spec fn is_bond(position: PortfolioMetricPosition) -> bool {
    *position.spec_eligibility() is Bond
}

pub open spec fn is_short(position: PortfolioMetricPosition) -> bool {
    position.spec_signed_notional() <= 0
}

/// Some position is short or flat.
pub open spec fn has_short(positions: Seq<PortfolioMetricPosition>) -> bool {
    exists|i: int| 0 <= i < positions.len() && is_short(#[trigger] positions[i])
}

/// Some long position is not a bond.
pub open spec fn has_non_bond(positions: Seq<PortfolioMetricPosition>) -> bool {
    exists|i: int|
        0 <= i < positions.len() && !is_short(#[trigger] positions[i])
            && *positions[i].spec_eligibility() is NonBond
}

/// Some long bond position lacks its metrics.
pub open spec fn has_missing_metric(positions: Seq<PortfolioMetricPosition>) -> bool {
    exists|i: int|
        0 <= i < positions.len() && !is_short(#[trigger] positions[i])
            && *positions[i].spec_eligibility() is MissingBondMetric
}

/// Some long bond position has a market value that is not positive.
pub open spec fn has_non_positive_bond_value(positions: Seq<PortfolioMetricPosition>) -> bool {
    exists|i: int|
        0 <= i < positions.len() && !is_short(#[trigger] positions[i]) && is_bond(positions[i])
            && fixed_value(positions[i].spec_market_value()) <= 0
}

/// The exclusion reasons that occur, in their canonical order.
pub open spec fn expected_reasons(positions: Seq<PortfolioMetricPosition>) -> Seq<PortfolioCoverageReason> {
    (if has_short(positions) {
        seq![PortfolioCoverageReason::ShortPositionExcludedFromWeightedAverages]
    } else {
        Seq::empty()
    }) + (if has_non_bond(positions) {
        seq![PortfolioCoverageReason::NonBondExcludedFromWeightedAverages]
    } else {
        Seq::empty()
    }) + (if has_missing_metric(positions) {
        seq![PortfolioCoverageReason::MissingBondMetricExcludedFromWeightedAverages]
    } else {
        Seq::empty()
    })
}

/// The number of long bond positions.
pub open spec fn participating_count(positions: Seq<PortfolioMetricPosition>) -> nat
    decreases positions.len(),
{
    if positions.len() == 0 {
        0
    } else {
        participating_count(positions.drop_last()) + if !is_short(positions.last()) && is_bond(
            positions.last(),
        ) {
            1nat
        } else {
            0nat
        }
    }
}

/// Duration times market value: the weights of the yield average.
pub open spec fn ytm_weights(positions: Seq<PortfolioMetricPosition>) -> Seq<int> {
    Seq::new(
        positions.len(),
        |i: int|
            fixed_value(positions[i].spec_market_value()) * bond_facts(
                positions[i],
            ).spec_modified_duration(),
    )
}

pub open spec fn notionals(positions: Seq<PortfolioMetricPosition>) -> Seq<int> {
    Seq::new(positions.len(), |i: int| positions[i].spec_signed_notional())
}

pub open spec fn yields(positions: Seq<PortfolioMetricPosition>) -> Seq<int> {
    Seq::new(positions.len(), |i: int| bond_facts(positions[i]).spec_yield_to_maturity())
}

pub open spec fn durations(positions: Seq<PortfolioMetricPosition>) -> Seq<int> {
    Seq::new(positions.len(), |i: int| bond_facts(positions[i]).spec_modified_duration())
}

pub open spec fn convexities(positions: Seq<PortfolioMetricPosition>) -> Seq<int> {
    Seq::new(positions.len(), |i: int| bond_facts(positions[i]).spec_convexity())
}

pub open spec fn coupons(positions: Seq<PortfolioMetricPosition>) -> Seq<int> {
    Seq::new(positions.len(), |i: int| bond_facts(positions[i]).spec_coupon_rate())
}

pub open spec fn remaining_terms(positions: Seq<PortfolioMetricPosition>) -> Seq<int> {
    Seq::new(positions.len(), |i: int| bond_facts(positions[i]).spec_remaining_years())
}

/// The weighted average coefficient of one measure.
pub open spec fn average_coefficient(weights: Seq<int>, values: Seq<int>, scale: u32) -> int {
    weighted_average_coefficient(
        dot(reduced_weights(weights), values),
        seq_sum(reduced_weights(weights)),
        scale as nat,
    )
}

/// Every long bond shares one set of measure Units, every duration weight lies within
/// `i128`, and all five weighted averages are computable.
pub open spec fn averages_defined(
    positions: Seq<PortfolioMetricPosition>,
    scales: PortfolioMetricOutputScales,
) -> bool {
    &&& forall|i: int|
        0 <= i < positions.len() ==> bond_facts(#[trigger] positions[i]).spec_units()@ == bond_facts(
            positions[0],
        ).spec_units()@
    &&& forall|i: int| 0 <= i < positions.len() ==> #[trigger] ytm_weights(positions)[i] <= i128::MAX
    &&& weighted_average_defined(ytm_weights(positions), yields(positions), scales.spec_rate() as nat)
    &&& weighted_average_defined(
        market_values(positions),
        durations(positions),
        scales.spec_years() as nat,
    )
    &&& weighted_average_defined(
        market_values(positions),
        convexities(positions),
        scales.spec_years_squared() as nat,
    )
    &&& weighted_average_defined(notionals(positions), coupons(positions), scales.spec_rate() as nat)
    &&& weighted_average_defined(
        notionals(positions),
        remaining_terms(positions),
        scales.spec_years() as nat,
    )
}


/// The exact scale-twelve market values and P&L of the positions.
fn collect_fixed_totals(positions: &[PortfolioMetricPosition]) -> (totals: (Vec<i128>, Vec<i128>))
    ensures
        ints(totals.0@) == market_values(positions@),
        ints(totals.1@) == economic_pnls(positions@),
{
    let mut values: Vec<i128> = Vec::new();
    let mut pnls: Vec<i128> = Vec::new();
    let mut i: usize = 0;
    while i < positions.len()
        invariant
            i <= positions@.len(),
            values@.len() == i,
            pnls@.len() == i,
            forall|k: int|
                0 <= k < i ==> #[trigger] values@[k] as int == fixed_value(
                    positions@[k].spec_market_value(),
                ),
            forall|k: int|
                0 <= k < i ==> #[trigger] pnls@[k] as int == fixed_value(
                    positions@[k].spec_economic_pnl(),
                ),
        decreases positions.len() - i,
    {
        let position = &positions[i];
        proof {
            use_type_invariant(position);
        }
        let value = match decimal_to_fixed(position.market_value()) {
            Ok(v) => v.scaled(),
            Err(_) => 0,
        };
        let pnl = match decimal_to_fixed(position.economic_pnl()) {
            Ok(v) => v.scaled(),
            Err(_) => 0,
        };
        values.push(value);
        pnls.push(pnl);
        i = i + 1;
    }
    proof {
        assert(ints(values@) =~= market_values(positions@));
        assert(ints(pnls@) =~= economic_pnls(positions@));
    }
    (values, pnls)
}

/// Classifies every position, failing on a long bond without a positive market value.
fn classify_positions(positions: &[PortfolioMetricPosition], market: &Vec<i128>) -> (result:
    ApplicationResult<(bool, bool, bool, u64)>)
    requires
        ints(market@) == market_values(positions@),
    ensures
        result is Ok <==> !has_non_positive_bond_value(positions@),
        result matches Ok((short, non_bond, missing, count)) ==> short == has_short(positions@)
            && non_bond == has_non_bond(positions@) && missing == has_missing_metric(positions@)
            && count == participating_count(positions@),
        result matches Err(e) ==> e == failure(ApplicationErrorCategory::ValidationFailed),
{
    proof {
        assert(ints(market@).len() == market@.len());
        assert(market_values(positions@).len() == positions@.len());
    }
    let mut short = false;
    let mut non_bond = false;
    let mut missing = false;
    let mut count: u64 = 0;
    let mut i: usize = 0;
    while i < positions.len()
        invariant
            i <= positions@.len(),
            market@.len() == positions@.len(),
            ints(market@) == market_values(positions@),
            short == has_short(positions@.subrange(0, i as int)),
            non_bond == has_non_bond(positions@.subrange(0, i as int)),
            missing == has_missing_metric(positions@.subrange(0, i as int)),
            !has_non_positive_bond_value(positions@.subrange(0, i as int)),
            count == participating_count(positions@.subrange(0, i as int)),
            count <= i,
        decreases positions.len() - i,
    {
        let ghost prefix = positions@.subrange(0, i as int);
        let ghost next = positions@.subrange(0, i + 1);
        proof {
            assert(next.drop_last() =~= prefix);
            assert(next.last() == positions@[i as int]);
            assert(forall|k: int| 0 <= k < i ==> #[trigger] next[k] == prefix[k]);
        }
        let position = &positions[i];
        if position.signed_notional().scaled() <= 0 {
            proof {
                assert(is_short(next[i as int]));
                assert(has_short(next));
                assert(has_non_bond(next) == has_non_bond(prefix));
                assert(has_missing_metric(next) == has_missing_metric(prefix));
                assert(!has_non_positive_bond_value(next));
            }
            short = true;
        } else {
            match position.weighted_metric_eligibility() {
                PortfolioWeightedMetricEligibility::Bond(_) => {
                    proof {
                        assert(market@[i as int] as int == ints(market@)[i as int]);
                    }
                    if market[i] <= 0 {
                        proof {
                            assert(has_non_positive_bond_value(positions@));
                        }
                        return Err(validation());
                    }
                    proof {
                        assert(has_non_bond(next) == has_non_bond(prefix));
                        assert(has_missing_metric(next) == has_missing_metric(prefix));
                        assert(has_short(next) == has_short(prefix));
                        assert(!has_non_positive_bond_value(next));
                    }
                    count = count + 1;
                },
                PortfolioWeightedMetricEligibility::NonBond => {
                    proof {
                        assert(has_non_bond(next));
                        assert(has_missing_metric(next) == has_missing_metric(prefix));
                        assert(has_short(next) == has_short(prefix));
                        assert(!has_non_positive_bond_value(next));
                    }
                    non_bond = true;
                },
                PortfolioWeightedMetricEligibility::MissingBondMetric => {
                    proof {
                        assert(has_missing_metric(next));
                        assert(has_non_bond(next) == has_non_bond(prefix));
                        assert(has_short(next) == has_short(prefix));
                        assert(!has_non_positive_bond_value(next));
                    }
                    missing = true;
                },
            }
        }
        i = i + 1;
    }
    proof {
        assert(positions@.subrange(0, positions@.len() as int) =~= positions@);
    }
    Ok((short, non_bond, missing, count))
}


/// All positions are long bonds with positive market values.
pub open spec fn all_long_bonds(positions: Seq<PortfolioMetricPosition>) -> bool {
    forall|i: int|
        0 <= i < positions.len() ==> !is_short(#[trigger] positions[i]) && is_bond(positions[i])
            && fixed_value(positions[i].spec_market_value()) > 0
}

/// The five weighted averages of a set of long bond positions.
fn weighted_averages(
    positions: &[PortfolioMetricPosition],
    market: &Vec<i128>,
    output_scales: PortfolioMetricOutputScales,
) -> (result: ApplicationResult<
    (DecimalValue, DecimalValue, DecimalValue, DecimalValue, DecimalValue),
>)
    requires
        positions@.len() >= 1,
        ints(market@) == market_values(positions@),
        all_long_bonds(positions@),
    ensures
        result is Ok <==> averages_defined(positions@, output_scales),
        result matches Ok((ytm, duration, convexity, coupon, remaining)) ==> {
            let ps = positions@;
            let units = bond_facts(ps[0]).spec_units();
            &&& ytm.coefficient == average_coefficient(
                ytm_weights(ps),
                yields(ps),
                output_scales.spec_rate(),
            )
            &&& ytm.scale == output_scales.spec_rate() && ytm.unit == units.ytm
            &&& duration.coefficient == average_coefficient(
                market_values(ps),
                durations(ps),
                output_scales.spec_years(),
            )
            &&& duration.scale == output_scales.spec_years() && duration.unit == units.duration
            &&& convexity.coefficient == average_coefficient(
                market_values(ps),
                convexities(ps),
                output_scales.spec_years_squared(),
            )
            &&& convexity.scale == output_scales.spec_years_squared() && convexity.unit
                == units.convexity
            &&& coupon.coefficient == average_coefficient(
                notionals(ps),
                coupons(ps),
                output_scales.spec_rate(),
            )
            &&& coupon.scale == output_scales.spec_rate() && coupon.unit == units.coupon_rate
            &&& remaining.coefficient == average_coefficient(
                notionals(ps),
                remaining_terms(ps),
                output_scales.spec_years(),
            )
            &&& remaining.scale == output_scales.spec_years() && remaining.unit
                == units.remaining_years
        },
        result matches Err(e) ==> e == failure(ApplicationErrorCategory::ValidationFailed),
{
    let ghost ps = positions@;
    proof {
        assert(ints(market@).len() == market@.len());
        assert(market_values(ps).len() == ps.len());
    }
    let first = match positions[0].weighted_metric_eligibility() {
        PortfolioWeightedMetricEligibility::Bond(facts) => facts,
        _ => {
            proof {
                assert(is_bond(ps[0]));
            }
            return Err(validation());
        },
    };
    let units = first.units();
    let mut ytm_weight: Vec<i128> = Vec::new();
    let mut notional: Vec<i128> = Vec::new();
    let mut ytm: Vec<FixedDecimal> = Vec::new();
    let mut duration: Vec<FixedDecimal> = Vec::new();
    let mut convexity: Vec<FixedDecimal> = Vec::new();
    let mut coupon: Vec<FixedDecimal> = Vec::new();
    let mut remaining: Vec<FixedDecimal> = Vec::new();
    let mut i: usize = 0;
    while i < positions.len()
        invariant
            ps == positions@,
            ps.len() >= 1,
            market@.len() == ps.len(),
            ints(market@) == market_values(ps),
            all_long_bonds(ps),
            *units == bond_facts(ps[0]).spec_units(),
            i <= ps.len(),
            ytm_weight@.len() == i,
            notional@.len() == i,
            ytm@.len() == i,
            duration@.len() == i,
            convexity@.len() == i,
            coupon@.len() == i,
            remaining@.len() == i,
            forall|k: int|
                0 <= k < i ==> bond_facts(#[trigger] ps[k]).spec_units()@ == bond_facts(
                    ps[0],
                ).spec_units()@,
            forall|k: int|
                0 <= k < i ==> #[trigger] ytm_weight@[k] as int == ytm_weights(ps)[k],
            forall|k: int| 0 <= k < i ==> #[trigger] notional@[k] as int == notionals(ps)[k],
            forall|k: int| 0 <= k < i ==> (#[trigger] ytm@[k]).scaled as int == yields(ps)[k],
            forall|k: int|
                0 <= k < i ==> (#[trigger] duration@[k]).scaled as int == durations(ps)[k],
            forall|k: int|
                0 <= k < i ==> (#[trigger] convexity@[k]).scaled as int == convexities(ps)[k],
            forall|k: int| 0 <= k < i ==> (#[trigger] coupon@[k]).scaled as int == coupons(ps)[k],
            forall|k: int|
                0 <= k < i ==> (#[trigger] remaining@[k]).scaled as int == remaining_terms(ps)[k],
        decreases ps.len() - i,
    {
        let facts = match positions[i].weighted_metric_eligibility() {
            PortfolioWeightedMetricEligibility::Bond(facts) => facts,
            _ => {
                proof {
                    assert(is_bond(ps[i as int]));
                }
                return Err(validation());
            },
        };
        proof {
            assert(**facts == bond_facts(ps[i as int]));
        }
        if !facts.units().same_as(units) {
            return Err(validation());
        }
        proof {
            assert(market@[i as int] as int == ints(market@)[i as int]);
            use_type_invariant(&**facts);
        }
        let weight = match checked_raw_product(market[i], facts.modified_duration().scaled()) {
            Ok(w) => w,
            Err(e) => {
                proof {
                    assert(ytm_weights(ps)[i as int] > i128::MAX);
                }
                return Err(e);
            },
        };
        ytm_weight.push(weight);
        notional.push(positions[i].signed_notional().scaled());
        ytm.push(facts.yield_to_maturity());
        duration.push(facts.modified_duration());
        convexity.push(facts.convexity());
        coupon.push(facts.coupon_rate());
        remaining.push(facts.remaining_years());
        i = i + 1;
    }
    proof {
        assert(ints(ytm_weight@) =~= ytm_weights(ps));
        assert(ints(notional@) =~= notionals(ps));
        assert(scaled_values(ytm@) =~= yields(ps));
        assert(scaled_values(duration@) =~= durations(ps));
        assert(scaled_values(convexity@) =~= convexities(ps));
        assert(scaled_values(coupon@) =~= coupons(ps));
        assert(scaled_values(remaining@) =~= remaining_terms(ps));
    }
    let ytm_average = match weighted_average(
        ytm_weight.as_slice(),
        ytm.as_slice(),
        output_scales.rate(),
        units.ytm.duplicate(),
    ) {
        Ok(v) => v,
        Err(e) => {
            return Err(e);
        },
    };
    let duration_average = match weighted_average(
        market.as_slice(),
        duration.as_slice(),
        output_scales.years(),
        units.duration.duplicate(),
    ) {
        Ok(v) => v,
        Err(e) => {
            return Err(e);
        },
    };
    let convexity_average = match weighted_average(
        market.as_slice(),
        convexity.as_slice(),
        output_scales.years_squared(),
        units.convexity.duplicate(),
    ) {
        Ok(v) => v,
        Err(e) => {
            return Err(e);
        },
    };
    let coupon_average = match weighted_average(
        notional.as_slice(),
        coupon.as_slice(),
        output_scales.rate(),
        units.coupon_rate.duplicate(),
    ) {
        Ok(v) => v,
        Err(e) => {
            return Err(e);
        },
    };
    let remaining_average = match weighted_average(
        notional.as_slice(),
        remaining.as_slice(),
        output_scales.years(),
        units.remaining_years.duplicate(),
    ) {
        Ok(v) => v,
        Err(e) => {
            return Err(e);
        },
    };
    Ok((ytm_average, duration_average, convexity_average, coupon_average, remaining_average))
}


/// The positions are valid and their market values and economic P&L sum and write at the money
/// scale: everything checked before the KRD vector.
pub open spec fn money_defined(positions: Seq<PortfolioMetricPosition>, scales: PortfolioMetricOutputScales) -> bool {
    &&& positions_valid(positions)
    &&& prefix_sums_fit(market_values(positions))
    &&& fixed_writes_at(seq_sum(market_values(positions)), scales.spec_money() as nat)
    &&& prefix_sums_fit(economic_pnls(positions))
    &&& fixed_writes_at(seq_sum(economic_pnls(positions)), scales.spec_money() as nat)
}

/// The positions and KRD vector aggregate without failure.
pub open spec fn aggregation_defined(
    positions: Seq<PortfolioMetricPosition>,
    krd_totals: Seq<FactorDv01>,
    scales: PortfolioMetricOutputScales,
) -> bool {
    &&& positions_valid(positions)
    &&& prefix_sums_fit(market_values(positions))
    &&& fixed_writes_at(seq_sum(market_values(positions)), scales.spec_money() as nat)
    &&& prefix_sums_fit(economic_pnls(positions))
    &&& fixed_writes_at(seq_sum(economic_pnls(positions)), scales.spec_money() as nat)
    &&& krd_valid(krd_totals)
    &&& prefix_sums_fit(factor_values(krd_totals))
    &&& fixed_writes_at(seq_sum(factor_values(krd_totals)), scales.spec_dv01() as nat)
    &&& !has_non_positive_bond_value(positions)
    &&& expected_reasons(positions).len() == 0 ==> averages_defined(positions, scales)
}

/// Applies the point-in-time convention to verified position totals and the existing KRD
/// result: signed money sums, the parallel DV01, coverage, and — only when every position is
/// a long bond — the five weighted averages.
#[verifier::rlimit(60)]
pub fn aggregate_portfolio_metrics(
    positions: &[PortfolioMetricPosition],
    krd_totals: &[FactorDv01],
    output_scales: PortfolioMetricOutputScales,
) -> (result: ApplicationResult<PortfolioMetricAggregation>)
    ensures
        result is Ok <==> aggregation_defined(positions@, krd_totals@, output_scales),
        !positions_valid(positions@) ==> result == Err::<PortfolioMetricAggregation, _>(
            failure(ApplicationErrorCategory::ValidationFailed),
        ),
        result matches Err(e) ==> e == failure(ApplicationErrorCategory::ValidationFailed) || e
            == failure(ApplicationErrorCategory::LineageIncomplete),
        result matches Err(e) ==> (e == failure(ApplicationErrorCategory::LineageIncomplete) <==> (
        money_defined(positions@, output_scales) && krd_totals@.len() > 0 && !krd_valid(krd_totals@))),
        result matches Ok(aggregation) ==> {
            let ps = positions@;
            let metrics = aggregation.basic_metrics;
            let reasons = expected_reasons(ps);
            &&& coefficient_at_scale(seq_sum(market_values(ps)), output_scales.spec_money() as nat)
                == Some(metrics.market_value.coefficient as int)
            &&& metrics.market_value.scale == output_scales.spec_money()
            &&& metrics.market_value.unit@ == ps[0].spec_market_value().unit@
            &&& coefficient_at_scale(seq_sum(economic_pnls(ps)), output_scales.spec_money() as nat)
                == Some(metrics.economic_pnl.coefficient as int)
            &&& metrics.economic_pnl.scale == output_scales.spec_money()
            &&& metrics.economic_pnl.unit@ == ps[0].spec_market_value().unit@
            &&& coefficient_at_scale(
                seq_sum(factor_values(krd_totals@)),
                output_scales.spec_dv01() as nat,
            ) == Some(metrics.dv01.coefficient as int)
            &&& metrics.dv01.scale == output_scales.spec_dv01()
            &&& metrics.dv01.unit == krd_totals@[0].unit
            &&& aggregation.krd_summary.parallel_dv01 == metrics.dv01
            &&& aggregation.krd_summary.totals@.len() == krd_totals@.len()
            &&& forall|i: int|
                0 <= i < krd_totals@.len() ==> (#[trigger] aggregation.krd_summary.totals@[i]).factor_id
                    == krd_totals@[i].factor_id && aggregation.krd_summary.totals@[i].value
                    == krd_totals@[i].value && aggregation.krd_summary.totals@[i].unit
                    == krd_totals@[i].unit && aggregation.krd_summary.totals@[i].factor_definition_hash@
                    == krd_totals@[i].factor_definition_hash@
            &&& aggregation.coverage.spec_imported_position_count() == ps.len()
            &&& aggregation.coverage.spec_participating_position_count() == participating_count(ps)
            &&& aggregation.coverage.spec_missing_reasons() == reasons
            &&& aggregation.data_mode == if reasons.len() == 0 {
                PortfolioMetricDataMode::Real
            } else {
                PortfolioMetricDataMode::Partial
            }
            &&& reasons.len() != 0 ==> metrics.weighted_ytm is None && metrics.modified_duration is None
                && metrics.convexity is None && metrics.weighted_coupon_rate is None
                && metrics.weighted_remaining_years is None
            &&& reasons.len() == 0 ==> {
                let units = bond_facts(ps[0]).spec_units();
                &&& metrics.weighted_ytm matches Some(v) && v.coefficient == average_coefficient(
                    ytm_weights(ps),
                    yields(ps),
                    output_scales.spec_rate(),
                ) && v.scale == output_scales.spec_rate() && v.unit == units.ytm
                &&& metrics.modified_duration matches Some(v) && v.coefficient == average_coefficient(
                    market_values(ps),
                    durations(ps),
                    output_scales.spec_years(),
                ) && v.scale == output_scales.spec_years() && v.unit == units.duration
                &&& metrics.convexity matches Some(v) && v.coefficient == average_coefficient(
                    market_values(ps),
                    convexities(ps),
                    output_scales.spec_years_squared(),
                ) && v.scale == output_scales.spec_years_squared() && v.unit == units.convexity
                &&& metrics.weighted_coupon_rate matches Some(v) && v.coefficient
                    == average_coefficient(notionals(ps), coupons(ps), output_scales.spec_rate())
                    && v.scale == output_scales.spec_rate() && v.unit == units.coupon_rate
                &&& metrics.weighted_remaining_years matches Some(v) && v.coefficient
                    == average_coefficient(
                    notionals(ps),
                    remaining_terms(ps),
                    output_scales.spec_years(),
                ) && v.scale == output_scales.spec_years() && v.unit == units.remaining_years
            }
        },
{
    if let Err(e) = validate_positions(positions) {
        return Err(e);
    }
    let ghost ps = positions@;
    let (market, pnls) = collect_fixed_totals(positions);
    proof {
        assert(ints(market@).len() == market@.len());
        assert(ints(pnls@).len() == pnls@.len());
    }
    let money_unit = &positions[0].market_value().unit;
    let market_total = match checked_total(&market) {
        Ok(total) => total,
        Err(e) => {
            return Err(e);
        },
    };
    let market_value = match fixed_to_decimal(
        FixedDecimal::from_scaled(market_total),
        output_scales.money(),
        money_unit.duplicate(),
    ) {
        Ok(v) => v,
        Err(e) => {
            return Err(e);
        },
    };
    let pnl_total = match checked_total(&pnls) {
        Ok(total) => total,
        Err(e) => {
            return Err(e);
        },
    };
    let economic_pnl = match fixed_to_decimal(
        FixedDecimal::from_scaled(pnl_total),
        output_scales.money(),
        money_unit.duplicate(),
    ) {
        Ok(v) => v,
        Err(e) => {
            return Err(e);
        },
    };
    let (krd, dv01) = match krd_summary(krd_totals, output_scales.dv01()) {
        Ok(pair) => pair,
        Err(e) => {
            return Err(e);
        },
    };
    let (short, non_bond, missing, count) = match classify_positions(positions, &market) {
        Ok(found) => found,
        Err(e) => {
            return Err(e);
        },
    };
    let mut reasons: Vec<PortfolioCoverageReason> = Vec::new();
    if short {
        reasons.push(PortfolioCoverageReason::ShortPositionExcludedFromWeightedAverages);
    }
    if non_bond {
        reasons.push(PortfolioCoverageReason::NonBondExcludedFromWeightedAverages);
    }
    if missing {
        reasons.push(PortfolioCoverageReason::MissingBondMetricExcludedFromWeightedAverages);
    }
    proof {
        assert(reasons@ =~= expected_reasons(ps));
    }
    let coverage = PortfolioMetricCoverage {
        imported_position_count: positions.len() as u64,
        weighted_average_participating_position_count: count,
        missing_reasons: reasons,
    };
    if short || non_bond || missing {
        let basic_metrics = PortfolioBasicMetrics {
            market_value,
            economic_pnl,
            weighted_ytm: None,
            modified_duration: None,
            convexity: None,
            weighted_coupon_rate: None,
            weighted_remaining_years: None,
            dv01,
        };
        return Ok(
            PortfolioMetricAggregation {
                data_mode: PortfolioMetricDataMode::Partial,
                basic_metrics,
                krd_summary: krd,
                coverage,
            },
        );
    }
    proof {
        assert forall|i: int| 0 <= i < ps.len() implies !is_short(#[trigger] ps[i]) && is_bond(ps[i])
            && fixed_value(ps[i].spec_market_value()) > 0 by {
            if is_short(ps[i]) {
                assert(has_short(ps));
            }
            if *ps[i].spec_eligibility() is NonBond {
                assert(has_non_bond(ps));
            }
            if *ps[i].spec_eligibility() is MissingBondMetric {
                assert(has_missing_metric(ps));
            }
            if fixed_value(ps[i].spec_market_value()) <= 0 {
                assert(has_non_positive_bond_value(ps));
            }
        }
    }
    let (ytm, duration, convexity, coupon, remaining) = match weighted_averages(
        positions,
        &market,
        output_scales,
    ) {
        Ok(values) => values,
        Err(e) => {
            return Err(e);
        },
    };
    let basic_metrics = PortfolioBasicMetrics {
        market_value,
        economic_pnl,
        weighted_ytm: Some(ytm),
        modified_duration: Some(duration),
        convexity: Some(convexity),
        weighted_coupon_rate: Some(coupon),
        weighted_remaining_years: Some(remaining),
        dv01,
    };
    Ok(
        PortfolioMetricAggregation {
            data_mode: PortfolioMetricDataMode::Real,
            basic_metrics,
            krd_summary: krd,
            coverage,
        },
    )
}


proof fn lemma_participating_count(positions: Seq<PortfolioMetricPosition>)
    ensures
        participating_count(positions) <= positions.len(),
        participating_count(positions) == positions.len() <==> forall|i: int|
            0 <= i < positions.len() ==> !is_short(#[trigger] positions[i]) && is_bond(positions[i]),
    decreases positions.len(),
{
    if positions.len() > 0 {
        let prefix = positions.drop_last();
        lemma_participating_count(prefix);
        assert(forall|i: int| 0 <= i < prefix.len() ==> #[trigger] prefix[i] == positions[i]);
        if participating_count(positions) == positions.len() {
            assert forall|i: int| 0 <= i < positions.len() implies !is_short(#[trigger] positions[i])
                && is_bond(positions[i]) by {
                if i < prefix.len() {
                    assert(prefix[i] == positions[i]);
                }
            }
        }
    }
}

/// Coverage is complete — no position is excluded from the weighted averages — exactly when
/// every imported position takes part in them.
pub proof fn law_complete_coverage_iff_all_participate(positions: Seq<PortfolioMetricPosition>)
    ensures
        participating_count(positions) <= positions.len(),
        expected_reasons(positions).len() == 0 <==> participating_count(positions) == positions.len(),
{
    lemma_participating_count(positions);
    if participating_count(positions) == positions.len() {
        assert(!has_short(positions));
        assert(!has_non_bond(positions));
        assert(!has_missing_metric(positions));
    }
    if expected_reasons(positions).len() == 0 {
        assert(!has_short(positions));
        assert(!has_non_bond(positions));
        assert(!has_missing_metric(positions));
        assert forall|i: int| 0 <= i < positions.len() implies !is_short(#[trigger] positions[i])
            && is_bond(positions[i]) by {
            assert(!is_short(positions[i]));
            match *positions[i].spec_eligibility() {
                PortfolioWeightedMetricEligibility::Bond(_) => {},
                PortfolioWeightedMetricEligibility::NonBond => {
                    assert(has_non_bond(positions));
                },
                PortfolioWeightedMetricEligibility::MissingBondMetric => {
                    assert(has_missing_metric(positions));
                },
            }
        }
    }
}

/// The KRD vectors of all members line up with the first member's non-empty vector: the same
/// length and, position by position, the same factor, definition and unit.
pub open spec fn krd_members_aligned(members: Seq<Seq<FactorDv01>>) -> bool {
    &&& members.len() >= 1
    &&& members[0].len() >= 1
    &&& forall|m: int| 0 <= m < members.len() ==> (#[trigger] members[m]).len() == members[0].len()
    &&& forall|m: int, i: int|
        0 <= m < members.len() && 0 <= i < members[0].len() ==> {
            &&& (#[trigger] members[m][i]).factor_id@ == members[0][i].factor_id@
            &&& members[m][i].factor_definition_hash@ == members[0][i].factor_definition_hash@
            &&& members[m][i].unit@ == members[0][i].unit@
        }
}

/// The values of one factor across the members.
pub open spec fn factor_column(members: Seq<Seq<FactorDv01>>, i: int) -> Seq<int> {
    Seq::new(members.len(), |m: int| members[m][i].value.scaled as int)
}

/// Every running sum of every factor across the members stays within `i128`.
pub open spec fn krd_sums_fit(members: Seq<Seq<FactorDv01>>) -> bool {
    forall|i: int| 0 <= i < members[0].len() ==> #[trigger] prefix_sums_fit(factor_column(members, i))
}

/// The KRD vectors of the members, as values.
pub open spec fn member_vectors(member_totals: Seq<Vec<FactorDv01>>) -> Seq<Seq<FactorDv01>> {
    member_totals.map_values(|v: Vec<FactorDv01>| v@)
}

/// The running sum of one factor over the first `p` members.
pub open spec fn column_sum(members: Seq<Seq<FactorDv01>>, i: int, p: int) -> int {
    seq_sum(factor_column(members, i).subrange(0, p))
}

proof fn lemma_column_sum_zero(members: Seq<Seq<FactorDv01>>, i: int)
    ensures
        column_sum(members, i, 0) == 0,
{
    assert(factor_column(members, i).subrange(0, 0) =~= Seq::<int>::empty());
}

proof fn lemma_column_sum_step(members: Seq<Seq<FactorDv01>>, i: int, p: int)
    requires
        0 <= p < members.len(),
    ensures
        column_sum(members, i, p + 1) == column_sum(members, i, p) + members[p][i].value.scaled,
{
    let col = factor_column(members, i);
    assert(col.subrange(0, p + 1).drop_last() =~= col.subrange(0, p));
    assert(col.subrange(0, p + 1).last() == col[p]);
}

proof fn lemma_column_sums_fit(members: Seq<Seq<FactorDv01>>, i: int)
    requires
        forall|p: int| 0 <= p <= members.len() ==> in_i128(#[trigger] column_sum(members, i, p)),
    ensures
        prefix_sums_fit(factor_column(members, i)),
{
    assert forall|p: int| 0 <= p <= factor_column(members, i).len() implies in_i128(
        #[trigger] seq_sum(factor_column(members, i).subrange(0, p)),
    ) by {
        assert(column_sum(members, i, p) == seq_sum(factor_column(members, i).subrange(0, p)));
    }
}

proof fn lemma_column_sum_whole(members: Seq<Seq<FactorDv01>>, i: int)
    ensures
        column_sum(members, i, members.len() as int) == seq_sum(factor_column(members, i)),
{
    assert(factor_column(members, i).subrange(0, members.len() as int) =~= factor_column(members, i));
}

/// Adds the KRD vectors of several members factor by factor: validation failure for no member,
/// an empty vector or an overflowing sum, incomplete lineage for vectors that do not line up.
pub fn aggregate_existing_krd(member_totals: &[Vec<FactorDv01>]) -> (result: ApplicationResult<
    Vec<FactorDv01>,
>)
    ensures
        result is Ok <==> krd_members_aligned(member_vectors(member_totals@)) && krd_sums_fit(
            member_vectors(member_totals@),
        ),
        result matches Ok(totals) ==> {
            let members = member_vectors(member_totals@);
            &&& totals@.len() == members[0].len()
            &&& forall|i: int|
                0 <= i < totals@.len() ==> {
                    &&& (#[trigger] totals@[i]).factor_id == members[0][i].factor_id
                    &&& totals@[i].factor_definition_hash@ == members[0][i].factor_definition_hash@
                    &&& totals@[i].unit == members[0][i].unit
                    &&& totals@[i].value.scaled == seq_sum(factor_column(members, i))
                }
        },
        member_totals@.len() == 0 || member_totals@[0]@.len() == 0 ==> result
            == Err::<Vec<FactorDv01>, _>(failure(ApplicationErrorCategory::ValidationFailed)),
        krd_members_aligned(member_vectors(member_totals@)) ==> (result matches Err(e) ==> e == failure(
            ApplicationErrorCategory::ValidationFailed,
        )),
        result matches Err(e) ==> e == failure(ApplicationErrorCategory::ValidationFailed) || e
            == failure(ApplicationErrorCategory::LineageIncomplete),
{
    let ghost members = member_vectors(member_totals@);
    if member_totals.len() == 0 {
        return Err(validation());
    }
    assert(members[0] == member_totals@[0]@);
    let first = &member_totals[0];
    if first.len() == 0 {
        return Err(validation());
    }
    let width = first.len();
    let mut totals: Vec<FactorDv01> = Vec::new();
    let mut k: usize = 0;
    while k < width
        invariant
            width == first@.len(),
            first@ == members[0],
            members == member_vectors(member_totals@),
            member_totals@.len() >= 1,
            k <= width,
            totals@.len() == k,
            forall|i: int|
                0 <= i < k ==> {
                    &&& (#[trigger] totals@[i]).factor_id == members[0][i].factor_id
                    &&& totals@[i].factor_definition_hash@ == members[0][i].factor_definition_hash@
                    &&& totals@[i].unit == members[0][i].unit
                    &&& totals@[i].value.scaled == column_sum(members, i, 1)
                    &&& in_i128(column_sum(members, i, 0))
                    &&& in_i128(column_sum(members, i, 1))
                },
        decreases width - k,
    {
        proof {
            lemma_column_sum_zero(members, k as int);
            lemma_column_sum_step(members, k as int, 0);
        }
        totals.push(first[k].duplicate());
        k = k + 1;
    }
    proof {
        assert forall|i: int, p: int| 0 <= i < width && 0 <= p <= 1 implies in_i128(
            #[trigger] column_sum(members, i, p),
        ) by {
            assert(totals@[i].value.scaled == column_sum(members, i, 1));
        }
    }
    let mut m: usize = 1;
    while m < member_totals.len()
        invariant
            1 <= m <= member_totals@.len(),
            width == members[0].len(),
            width >= 1,
            members == member_vectors(member_totals@),
            totals@.len() == width,
            forall|q: int| 0 <= q < m ==> (#[trigger] members[q]).len() == width,
            forall|q: int, i: int|
                0 <= q < m && 0 <= i < width ==> {
                    &&& (#[trigger] members[q][i]).factor_id@ == members[0][i].factor_id@
                    &&& members[q][i].factor_definition_hash@ == members[0][i].factor_definition_hash@
                    &&& members[q][i].unit@ == members[0][i].unit@
                },
            forall|i: int|
                0 <= i < width ==> {
                    &&& (#[trigger] totals@[i]).factor_id == members[0][i].factor_id
                    &&& totals@[i].factor_definition_hash@ == members[0][i].factor_definition_hash@
                    &&& totals@[i].unit == members[0][i].unit
                    &&& totals@[i].value.scaled == column_sum(members, i, m as int)
                },
            forall|i: int, p: int|
                0 <= i < width && 0 <= p <= m ==> in_i128(#[trigger] column_sum(members, i, p)),
        decreases member_totals.len() - m,
    {
        let member = &member_totals[m];
        assert(members[m as int] == member@);
        if member.len() != width {
            proof {
                assert(!krd_members_aligned(members));
            }
            return Err(lineage());
        }
        let mut i: usize = 0;
        while i < width
            invariant
                1 <= m < member_totals@.len(),
                width == members[0].len(),
                members[m as int] == member@,
                member@.len() == width,
                members == member_vectors(member_totals@),
                totals@.len() == width,
                i <= width,
                forall|q: int| 0 <= q < m ==> (#[trigger] members[q]).len() == width,
                forall|q: int, j: int|
                    0 <= q < m && 0 <= j < width ==> {
                        &&& (#[trigger] members[q][j]).factor_id@ == members[0][j].factor_id@
                        &&& members[q][j].factor_definition_hash@ == members[0][j].factor_definition_hash@
                        &&& members[q][j].unit@ == members[0][j].unit@
                    },
                forall|j: int|
                    0 <= j < i ==> {
                        &&& (#[trigger] members[m as int][j]).factor_id@ == members[0][j].factor_id@
                        &&& members[m as int][j].factor_definition_hash@ == members[0][j].factor_definition_hash@
                        &&& members[m as int][j].unit@ == members[0][j].unit@
                    },
                forall|j: int|
                    0 <= j < width ==> {
                        &&& (#[trigger] totals@[j]).factor_id == members[0][j].factor_id
                        &&& totals@[j].factor_definition_hash@ == members[0][j].factor_definition_hash@
                        &&& totals@[j].unit == members[0][j].unit
                        &&& totals@[j].value.scaled == column_sum(
                            members,
                            j,
                            if j < i {
                                m + 1
                            } else {
                                m as int
                            },
                        )
                    },
                forall|j: int, p: int|
                    0 <= j < width && 0 <= p <= m ==> in_i128(#[trigger] column_sum(members, j, p)),
                forall|j: int| 0 <= j < i ==> in_i128(#[trigger] column_sum(members, j, m + 1)),
            decreases width - i,
        {
            let total = &totals[i];
            let value = &member[i];
            if !value.factor_id.eq(&total.factor_id) || !bytes_equal(
                value.factor_definition_hash.as_slice(),
                total.factor_definition_hash.as_slice(),
            ) || !value.unit.same_as(&total.unit) {
                proof {
                    assert(!krd_members_aligned(members)) by {
                        if krd_members_aligned(members) {
                            assert(members[m as int][i as int].factor_id@ == members[0][i as int].factor_id@);
                        }
                    }
                }
                return Err(lineage());
            }
            proof {
                lemma_column_sum_step(members, i as int, m as int);
            }
            let sum = match total.value.scaled.checked_add(value.value.scaled) {
                Some(v) => v,
                None => {
                    proof {
                        let col = factor_column(members, i as int);
                        assert(!in_i128(column_sum(members, i as int, m + 1)));
                        assert(!prefix_sums_fit(col)) by {
                            assert(column_sum(members, i as int, m + 1) == seq_sum(col.subrange(0, m + 1)));
                        }
                        assert(!krd_sums_fit(members));
                    }
                    return Err(validation());
                },
            };
            let updated = FactorDv01 {
                factor_id: total.factor_id.clone(),
                factor_definition_hash: total.factor_definition_hash.clone(),
                value: FixedDecimal::from_scaled(sum),
                unit: total.unit.duplicate(),
            };
            totals.set(i, updated);
            i = i + 1;
        }
        proof {
            assert forall|j: int, p: int|
                0 <= j < width && 0 <= p <= m + 1 implies in_i128(#[trigger] column_sum(members, j, p)) by {
                if p == m + 1 {
                    assert(in_i128(column_sum(members, j, m + 1)));
                }
            }
        }
        m = m + 1;
    }
    proof {
        assert forall|i: int| 0 <= i < members[0].len() implies #[trigger] prefix_sums_fit(
            factor_column(members, i),
        ) by {
            lemma_column_sums_fit(members, i);
        }
        assert forall|i: int| 0 <= i < totals@.len() implies (#[trigger] totals@[i]).value.scaled
            == seq_sum(factor_column(members, i)) by {
            lemma_column_sum_whole(members, i);
        }
    }
    Ok(totals)
}

/// The parallel total of each member's KRD vector.
pub open spec fn member_parallel_totals(members: Seq<Seq<FactorDv01>>) -> Seq<int> {
    Seq::new(members.len(), |m: int| seq_sum(factor_values(members[m])))
}

/// The factor-by-factor sums of the members' KRD vectors, `width` factors wide.
pub open spec fn column_totals(members: Seq<Seq<FactorDv01>>, width: nat) -> Seq<int> {
    Seq::new(width, |i: int| seq_sum(factor_column(members, i)))
}

proof fn lemma_seq_sum_pointwise(a: Seq<int>, b: Seq<int>)
    requires
        a.len() == b.len(),
    ensures
        seq_sum(Seq::new(a.len(), |i: int| a[i] + b[i])) == seq_sum(a) + seq_sum(b),
    decreases a.len(),
{
    if a.len() > 0 {
        let both = Seq::new(a.len(), |i: int| a[i] + b[i]);
        lemma_seq_sum_pointwise(a.drop_last(), b.drop_last());
        assert(both.drop_last() =~= Seq::new(
            a.drop_last().len(),
            |i: int| a.drop_last()[i] + b.drop_last()[i],
        ));
    } else {
        assert(Seq::new(a.len(), |i: int| a[i] + b[i]) =~= Seq::<int>::empty());
    }
}

/// Aggregating the members' KRD vectors factor by factor and then summing the factors gives
/// the sum of the members' own parallel totals.
pub proof fn law_krd_aggregation_preserves_parallel_total(members: Seq<Seq<FactorDv01>>, width: nat)
    requires
        forall|m: int| 0 <= m < members.len() ==> (#[trigger] members[m]).len() == width,
    ensures
        seq_sum(column_totals(members, width)) == seq_sum(member_parallel_totals(members)),
    decreases members.len(),
{
    if members.len() == 0 {
        assert forall|i: int| 0 <= i < width implies #[trigger] column_totals(members, width)[i] == 0 by {
            assert(factor_column(members, i) =~= Seq::<int>::empty());
        }
        lemma_seq_sum_zeros(column_totals(members, width));
        assert(member_parallel_totals(members) =~= Seq::<int>::empty());
    } else {
        let rest = members.drop_last();
        let last = members.last();
        assert forall|m: int| 0 <= m < rest.len() implies (#[trigger] rest[m]).len() == width by {
            assert(rest[m] == members[m]);
        }
        law_krd_aggregation_preserves_parallel_total(rest, width);
        let before = column_totals(rest, width);
        let row = factor_values(last);
        assert(row.len() == width);
        assert(column_totals(members, width) =~= Seq::new(before.len(), |i: int| before[i] + row[i])) by {
            assert forall|i: int| 0 <= i < width implies #[trigger] column_totals(members, width)[i]
                == before[i] + row[i] by {
                let col = factor_column(members, i);
                assert(col.drop_last() =~= factor_column(rest, i));
            }
        }
        lemma_seq_sum_pointwise(before, row);
        assert(member_parallel_totals(members).drop_last() =~= member_parallel_totals(rest));
    }
}

proof fn lemma_seq_sum_zeros(values: Seq<int>)
    requires
        forall|i: int| 0 <= i < values.len() ==> #[trigger] values[i] == 0,
    ensures
        seq_sum(values) == 0,
    decreases values.len(),
{
    if values.len() > 0 {
        lemma_seq_sum_zeros(values.drop_last());
    }
}

} // verus!
