use vstd::prelude::*;
use chrono::Datelike;

use crate::bytes::{be_u64, push_all, push_be_u64, text_bytes};
use crate::calendar::CalendarSession;
use crate::cursor::{parse_u64_field, parsed_u64};
use crate::decimal::{
    DecimalValue, FIXED_DECIMAL_SCALE, FixedDecimal, lemma_exact_division, lemma_not_divisible, pow10,
};
use crate::digest::{content_digest, sha256};
use crate::error::{ApplicationErrorCategory, ApplicationResult, failure, lineage, validation};
use crate::evidence::{market_times_equal, same_time};
use crate::hex::{encode_hex, hex_text};
use crate::futures::delivery_decimal_to_fixed;
use crate::decimal::UnitRef;
use crate::primitives::{LocalDate, MarketTime, OwnerRef, instant_before, instant_less};
use crate::text::same_text;

verus! {

/// A per-face risk value scaled to a holding: `value * quantity / registered_face`, which must be
/// exact. Fails with a validation error unless the face is positive, the quantity converts to
/// twelve places without loss, the product fits `i128` and the face divides it.
pub fn scale_by_notional(value: FixedDecimal, quantity: &DecimalValue, registered_face: FixedDecimal) -> (result:
    ApplicationResult<FixedDecimal>)
    ensures
        result is Ok <==> {
            let q = quantity.coefficient * pow10((12 - quantity.scale) as nat);
            &&& registered_face.scaled > 0
            &&& quantity.scale <= 12
            &&& i128::MIN <= q <= i128::MAX
            &&& i128::MIN <= value.scaled * q <= i128::MAX
            &&& (value.scaled * q) % (registered_face.scaled as int) == 0
        },
        result matches Ok(scaled) ==> scaled.scaled * registered_face.scaled == value.scaled
            * (quantity.coefficient * pow10((12 - quantity.scale) as nat)),
        result matches Err(e) ==> e == failure(ApplicationErrorCategory::ValidationFailed),
{
    if !registered_face.is_positive() {
        return Err(validation());
    }
    let quantity = delivery_decimal_to_fixed(quantity)?;
    let numerator = match value.scaled.checked_mul(quantity.scaled) {
        Some(product) => product,
        None => {
            return Err(validation());
        },
    };
    let denominator = registered_face.scaled;
    let negative = numerator < 0;
    let magnitude: u128 = if negative {
        ((-(numerator + 1)) as u128) + 1
    } else {
        numerator as u128
    };
    let ghost m: nat = magnitude as nat;
    let d = denominator as u128;
    if magnitude % d != 0 {
        proof {
            vstd::arithmetic::div_mod::lemma_fundamental_div_mod(m as int, d as int);
            lemma_not_divisible(numerator as int, m, denominator as int);
        }
        return Err(validation());
    }
    let q = magnitude / d;
    proof {
        vstd::arithmetic::div_mod::lemma_fundamental_div_mod(m as int, d as int);
        lemma_exact_division(numerator as int, m, denominator as int, q as int);
        assert(q <= magnitude) by {
            vstd::arithmetic::div_mod::lemma_div_is_ordered_by_denominator(m as int, 1, d as int);
        }
        vstd::arithmetic::div_mod::lemma_fundamental_div_mod(numerator as int, denominator as int);
    }
    let quotient: i128 = if negative {
        if q == 170141183460469231731687303715884105728u128 {
            i128::MIN
        } else {
            -(q as i128)
        }
    } else {
        q as i128
    };
    proof {
        assert(quotient as int == numerator as int / denominator as int);
        assert(numerator as int == denominator as int * quotient as int);
        assert(quotient as int * denominator as int == denominator as int * quotient as int) by (nonlinear_arith);
    }
    Ok(FixedDecimal::from_scaled(quotient))
}

/// The number of decimal digits of a magnitude.
pub open spec fn digit_count(magnitude: nat) -> nat
    decreases magnitude,
{
    if magnitude < 10 {
        1
    } else {
        1 + digit_count(magnitude / 10)
    }
}

/// A number below `10^k` has at most `k` digits.
pub proof fn lemma_digit_count_bound(n: nat, k: nat)
    requires
        k >= 1,
        n < pow10(k),
    ensures
        digit_count(n) <= k,
    decreases n,
{
    if n >= 10 {
        if k == 1 {
            assert(pow10(1) == 10) by {
                reveal_with_fuel(pow10, 2);
            }
        } else {
            assert(pow10(k) == 10 * pow10((k - 1) as nat));
            lemma_digit_count_bound(n / 10, (k - 1) as nat);
        }
    }
}

/// The absolute value of an integer.
pub open spec fn magnitude(value: int) -> nat {
    if value < 0 {
        (-value) as nat
    } else {
        value as nat
    }
}

/// The precision of a coefficient: the digits of its decimal text without the sign.
pub fn decimal_precision(coefficient: i128) -> (precision: u32)
    ensures
        precision == digit_count(magnitude(coefficient as int)),
{
    let mut rest: u128 = if coefficient < 0 {
        ((-(coefficient + 1)) as u128) + 1
    } else {
        coefficient as u128
    };
    let ghost start: nat = rest as nat;
    assert(start == magnitude(coefficient as int));
    assert(pow10(39) == 1000000000000000000000000000000000000000int) by {
        reveal_with_fuel(pow10, 40);
    }
    proof {
        lemma_digit_count_bound(start, 39);
    }
    let mut count: u32 = 1;
    while rest >= 10
        invariant
            count >= 1,
            digit_count(start) == count - 1 + digit_count(rest as nat),
            digit_count(start) <= 39,
        decreases rest,
    {
        rest = rest / 10;
        count = count + 1;
    }
    count
}

/// The facts of a registered Unit that a risk value is checked against.
#[derive(Clone, Debug)]
pub struct RegisteredUnitFacts {
    pub identity: String,
    pub version: u64,
    pub owner: OwnerRef,
    pub dimension: String,
    pub scale: u32,
    pub precision: u32,
}

/// A fixed twelve-place output fits a Unit: the Unit keeps at least twelve places and the
/// value's digits within its precision.
pub open spec fn fixed_output_fits(value: FixedDecimal, unit: RegisteredUnitFacts) -> bool {
    unit.scale >= FIXED_DECIMAL_SCALE && digit_count(magnitude(value.scaled as int)) <= unit.precision
}

/// Checks that a fixed twelve-place output fits its Unit; a validation error otherwise.
pub fn validate_fixed_output(value: FixedDecimal, unit: &RegisteredUnitFacts) -> (result: ApplicationResult<()>)
    ensures
        result is Ok <==> fixed_output_fits(value, *unit),
        result matches Err(e) ==> e == failure(ApplicationErrorCategory::ValidationFailed),
{
    if unit.scale < FIXED_DECIMAL_SCALE || decimal_precision(value.scaled) > unit.precision {
        return Err(validation());
    }
    Ok(())
}

/// Whether some session of the calendar opens and closes on the settlement date.
pub open spec fn settlement_open(sessions: Seq<CalendarSession>, settlement: LocalDate) -> bool {
    exists|i: int|
        0 <= i < sessions.len() && (#[trigger] sessions[i]).local_date == settlement
            && sessions[i].open_local_time is Some && sessions[i].close_local_time is Some
}

/// Checks that the settlement date is an open session of the calendar; a validation error
/// otherwise.
pub fn require_open_settlement(sessions: &[CalendarSession], settlement: LocalDate) -> (result:
    ApplicationResult<()>)
    ensures
        result is Ok <==> settlement_open(sessions@, settlement),
        result matches Err(e) ==> e == failure(ApplicationErrorCategory::ValidationFailed),
{
    let mut i: usize = 0;
    while i < sessions.len()
        invariant
            i <= sessions@.len(),
            forall|k: int|
                0 <= k < i ==> !((#[trigger] sessions@[k]).local_date == settlement
                    && sessions@[k].open_local_time is Some && sessions@[k].close_local_time is Some),
        decreases sessions.len() - i,
    {
        let session = sessions[i];
        if session.local_date == settlement && session.open_local_time.is_some()
            && session.close_local_time.is_some() {
            assert(sessions@[i as int] == session);
            return Ok(());
        }
        i = i + 1;
    }
    Err(validation())
}

/// The date a number of months after another, as `chrono` computes it (the day clamped to the
/// end of a shorter month); nothing when either date cannot be represented.
pub uninterp spec fn date_plus_months(date: LocalDate, months: u32) -> Option<LocalDate>;

/// The date a number of days after another, as `chrono` computes it; nothing when either date
/// cannot be represented.
pub uninterp spec fn date_plus_days(date: LocalDate, days: u64) -> Option<LocalDate>;

/// `NaiveDate::from_ymd_opt`, then `NaiveDate::checked_add_months`.
#[verifier::external_body]
fn add_months(date: LocalDate, months: u32) -> (result: Option<LocalDate>)
    ensures
        result == date_plus_months(date, months),
{
    let start = chrono::NaiveDate::from_ymd_opt(date.year, date.month, date.day)?;
    let end = start.checked_add_months(chrono::Months::new(months))?;
    Some(LocalDate { year: end.year(), month: end.month(), day: end.day() })
}

/// `NaiveDate::from_ymd_opt`, then `NaiveDate::checked_add_days`.
#[verifier::external_body]
fn add_days(date: LocalDate, days: u64) -> (result: Option<LocalDate>)
    ensures
        result == date_plus_days(date, days),
{
    let start = chrono::NaiveDate::from_ymd_opt(date.year, date.month, date.day)?;
    let end = start.checked_add_days(chrono::Days::new(days))?;
    Some(LocalDate { year: end.year(), month: end.month(), day: end.day() })
}

/// The amount of a tenor text: the characters between its first and its last, read as
/// `str::parse::<u32>` reads them.
pub open spec fn tenor_amount(text: Seq<u8>) -> Option<u32> {
    if text.len() >= 2 {
        match parsed_u64(text.subrange(1, text.len() - 1)) {
            Some(value) => if value <= u32::MAX {
                Some(value as u32)
            } else {
                None
            },
            None => None,
        }
    } else {
        None
    }
}

/// The date a tenor such as `P5Y`, `P6M` or `P10D` reaches from a start date: years and months
/// move by calendar months, days by days; nothing for any other unit, an unreadable amount, a
/// year count whose months overflow `u32`, or a date `chrono` cannot represent.
pub open spec fn tenor_end(as_of: LocalDate, text: Seq<u8>) -> Option<LocalDate> {
    match tenor_amount(text) {
        Some(amount) => if text.last() == 89u8 {
            if amount * 12 <= u32::MAX {
                date_plus_months(as_of, (amount * 12) as u32)
            } else {
                None
            }
        } else if text.last() == 77u8 {
            date_plus_months(as_of, amount)
        } else if text.last() == 68u8 {
            date_plus_days(as_of, amount as u64)
        } else {
            None
        },
        None => None,
    }
}

/// The date a curve-node tenor reaches from the curve's as-of date; a validation error when
/// the tenor does not name one.
pub fn tenor_date(as_of: LocalDate, tenor: &str) -> (result: ApplicationResult<LocalDate>)
    ensures
        result is Ok <==> tenor_end(as_of, text_bytes(tenor@)) is Some,
        result matches Ok(date) ==> tenor_end(as_of, text_bytes(tenor@)) == Some(date),
        result matches Err(e) ==> e == failure(ApplicationErrorCategory::ValidationFailed),
{
    let bytes = tenor.as_bytes();
    if bytes.len() < 2 {
        return Err(validation());
    }
    let middle = vstd::slice::slice_subrange(bytes, 1, bytes.len() - 1);
    let amount = match parse_u64_field(middle) {
        Some(value) => {
            if value > u32::MAX as u64 {
                return Err(validation());
            }
            value as u32
        },
        None => {
            return Err(validation());
        },
    };
    assert(tenor_amount(bytes@) == Some(amount));
    let last = bytes[bytes.len() - 1];
    let end = if last == 89u8 {
        match amount.checked_mul(12) {
            Some(months) => add_months(as_of, months),
            None => None,
        }
    } else if last == 77u8 {
        add_months(as_of, amount)
    } else if last == 68u8 {
        add_days(as_of, amount as u64)
    } else {
        None
    };
    match end {
        Some(date) => Ok(date),
        None => Err(validation()),
    }
}

/// A decimal input fits its registered Unit: the value names the Unit's exact version, the Unit
/// belongs to the expected owner and has the expected dimension, and the value's scale and
/// digits lie within the Unit's scale and precision.
pub open spec fn decimal_fits_unit(
    value: DecimalValue,
    unit: RegisteredUnitFacts,
    expected_dimension: Seq<char>,
    expected_owner: OwnerRef,
) -> bool {
    &&& unit.identity@ == value.unit.unit_id@
    &&& unit.version == value.unit.version
    &&& unit.owner.tenant_id@ == expected_owner.tenant_id@
    &&& unit.owner.owner_id@ == expected_owner.owner_id@
    &&& unit.dimension@ == expected_dimension
    &&& value.scale <= unit.scale
    &&& digit_count(magnitude(value.coefficient as int)) <= unit.precision
}

/// Checks a decimal input against its registered Unit; a validation error otherwise.
pub fn validate_decimal_unit(
    value: &DecimalValue,
    unit: &RegisteredUnitFacts,
    expected_dimension: &str,
    expected_owner: &OwnerRef,
) -> (result: ApplicationResult<()>)
    ensures
        result is Ok <==> decimal_fits_unit(*value, *unit, expected_dimension@, *expected_owner),
        result matches Err(e) ==> e == failure(ApplicationErrorCategory::ValidationFailed),
{
    let reference_matches = same_text(&unit.identity, &value.unit.unit_id) && unit.version
        == value.unit.version;
    if !reference_matches || !unit.owner.same_as(expected_owner) || !same_text(
        &unit.dimension,
        &expected_dimension.to_owned(),
    ) || value.scale > unit.scale || decimal_precision(value.coefficient) > unit.precision {
        return Err(validation());
    }
    Ok(())
}

/// The inputs of a key-rate DV01 calculation that the loaded records are checked against.
#[derive(Clone, Debug)]
pub struct KeyRateCommandFacts {
    pub position_snapshot_id: String,
    pub curve_snapshot_id: String,
    pub valuation_at: MarketTime,
    pub knowledge_at: MarketTime,
}

/// Checks the position snapshot a key-rate calculation loaded: after the scope's authorization
/// of its owner, it must be the commanded snapshot and visible by the knowledge instant;
/// incomplete lineage otherwise.
pub fn validate_position_snapshot(
    authorization: ApplicationResult<()>,
    snapshot_id: &String,
    snapshot_visible_at: &MarketTime,
    command: &KeyRateCommandFacts,
) -> (result: ApplicationResult<()>)
    ensures
        authorization is Err ==> result == authorization,
        authorization is Ok ==> (result is Ok <==> (snapshot_id@ == command.position_snapshot_id@
            && !instant_less(command.knowledge_at.instant, snapshot_visible_at.instant))),
        authorization is Ok && result is Err ==> result == Err::<(), _>(
            failure(ApplicationErrorCategory::LineageIncomplete),
        ),
{
    authorization?;
    if !same_text(snapshot_id, &command.position_snapshot_id) || instant_before(
        command.knowledge_at.instant,
        snapshot_visible_at.instant,
    ) {
        return Err(lineage());
    }
    Ok(())
}

/// The facts of a curve snapshot that a key-rate calculation checks.
#[derive(Clone, Debug)]
pub struct CurveSnapshotFacts {
    pub id: String,
    pub owner: OwnerRef,
    pub as_of: MarketTime,
    pub visible_at: Option<MarketTime>,
    pub curve_family_id: Option<String>,
    pub point_schema: String,
}

/// A curve snapshot serves a calculation: it is the commanded curve, of the position
/// snapshot's owner, as of the valuation time, visible by the knowledge instant, of a curve
/// family and in the expected point schema.
pub open spec fn curve_snapshot_valid(
    curve: CurveSnapshotFacts,
    snapshot_owner: OwnerRef,
    command: KeyRateCommandFacts,
    point_schema: Seq<char>,
) -> bool {
    &&& curve.id@ == command.curve_snapshot_id@
    &&& curve.owner.tenant_id@ == snapshot_owner.tenant_id@
    &&& curve.owner.owner_id@ == snapshot_owner.owner_id@
    &&& same_time(curve.as_of, command.valuation_at)
    &&& (curve.visible_at matches Some(t) && !instant_less(command.knowledge_at.instant, t.instant))
    &&& curve.curve_family_id is Some
    &&& curve.point_schema@ == point_schema
}

/// A curve serves a key-rate calculation only when it is the commanded curve, of the position
/// snapshot's owner, as of exactly the valuation time — the same instant, zone and trading
/// date — visible by the knowledge instant, of a curve family and in the expected schema.
pub proof fn law_curve_serves_the_valuation(
    curve: CurveSnapshotFacts,
    snapshot_owner: OwnerRef,
    command: KeyRateCommandFacts,
    point_schema: Seq<char>,
)
    ensures
        curve_snapshot_valid(curve, snapshot_owner, command, point_schema) ==> {
            &&& curve.id@ == command.curve_snapshot_id@
            &&& curve.owner.tenant_id@ == snapshot_owner.tenant_id@
            &&& curve.owner.owner_id@ == snapshot_owner.owner_id@
            &&& curve.as_of.instant == command.valuation_at.instant
            &&& curve.as_of.market_timezone@ == command.valuation_at.market_timezone@
            &&& curve.as_of.local_trading_date == command.valuation_at.local_trading_date
            &&& curve.visible_at is Some
            &&& !instant_less(command.knowledge_at.instant, curve.visible_at->0.instant)
            &&& curve.curve_family_id is Some
            &&& curve.point_schema@ == point_schema
        },
{
}

/// Checks the curve snapshot a key-rate calculation loaded: after the scope's authorization of
/// its owner, incomplete lineage unless it serves the calculation.
pub fn validate_curve_snapshot(
    authorization: ApplicationResult<()>,
    curve: &CurveSnapshotFacts,
    snapshot_owner: &OwnerRef,
    command: &KeyRateCommandFacts,
    point_schema: &str,
) -> (result: ApplicationResult<()>)
    ensures
        authorization is Err ==> result == authorization,
        authorization is Ok ==> (result is Ok <==> curve_snapshot_valid(
            *curve,
            *snapshot_owner,
            *command,
            point_schema@,
        )),
        authorization is Ok && result is Err ==> result == Err::<(), _>(
            failure(ApplicationErrorCategory::LineageIncomplete),
        ),
        result is Ok ==> {
            &&& authorization is Ok
            &&& curve.id@ == command.curve_snapshot_id@
            &&& curve.owner.tenant_id@ == snapshot_owner.tenant_id@
            &&& curve.owner.owner_id@ == snapshot_owner.owner_id@
            &&& curve.as_of.instant == command.valuation_at.instant
            &&& curve.as_of.market_timezone@ == command.valuation_at.market_timezone@
            &&& curve.as_of.local_trading_date == command.valuation_at.local_trading_date
            &&& curve.visible_at is Some
            &&& !instant_less(command.knowledge_at.instant, curve.visible_at->0.instant)
            &&& curve.curve_family_id is Some
            &&& curve.point_schema@ == point_schema@
        },
{
    proof {
        law_curve_serves_the_valuation(*curve, *snapshot_owner, *command, point_schema@);
    }
    authorization?;
    let visible = match &curve.visible_at {
        Some(t) => !instant_before(command.knowledge_at.instant, t.instant),
        None => false,
    };
    if !same_text(&curve.id, &command.curve_snapshot_id) || !curve.owner.same_as(snapshot_owner)
        || !market_times_equal(&curve.as_of, &command.valuation_at) || !visible
        || curve.curve_family_id.is_none() || !same_text(&curve.point_schema, &point_schema.to_owned()) {
        return Err(lineage());
    }
    Ok(())
}

/// A decoded curve point: the node it claims and the Unit of its yield.
#[derive(Clone, Debug)]
pub struct CurvePointFacts {
    pub curve_node_id: String,
    pub curve_node_content_hash: Vec<u8>,
    pub yield_unit: UnitRef,
}

/// A registered curve node definition.
#[derive(Clone, Debug)]
pub struct CurveNodeFacts {
    pub curve_node_id: String,
    pub content_hash: Vec<u8>,
    pub curve_family_id: String,
    pub factor_unit: UnitRef,
}

/// A point is read against the node it claims: same node and content, the curve's family and
/// the node's factor Unit.
pub open spec fn node_matches(curve_family_id: Option<String>, point: CurvePointFacts, node: CurveNodeFacts) -> bool {
    &&& node.curve_node_id@ == point.curve_node_id@
    &&& node.content_hash@ == point.curve_node_content_hash@
    &&& (curve_family_id matches Some(family) && family@ == node.curve_family_id@)
    &&& node.factor_unit@ == point.yield_unit@
}

/// Checks a curve point against its node definition; incomplete lineage otherwise.
pub fn validate_node(curve_family_id: &Option<String>, point: &CurvePointFacts, node: &CurveNodeFacts) -> (result:
    ApplicationResult<()>)
    ensures
        result is Ok <==> node_matches(*curve_family_id, *point, *node),
        result matches Err(e) ==> e == failure(ApplicationErrorCategory::LineageIncomplete),
{
    let family_matches = match curve_family_id {
        Some(family) => same_text(family, &node.curve_family_id),
        None => false,
    };
    if !same_text(&node.curve_node_id, &point.curve_node_id) || !crate::bytes::bytes_equal(
        node.content_hash.as_slice(),
        point.curve_node_content_hash.as_slice(),
    ) || !family_matches || !node.factor_unit.same_as(&point.yield_unit) {
        return Err(lineage());
    }
    Ok(())
}

/// The facts of a factor definition that a key-rate calculation relies on.
#[derive(Clone, Debug)]
pub struct FactorDefinitionFacts {
    pub factor_unit: UnitRef,
    pub bump_unit: UnitRef,
    pub rebuilds_curve: bool,
    pub excludes_second_order: bool,
}

/// A factor definition fits its node and point: same factor Unit, bumps in the yield's Unit,
/// rebuilds the curve and leaves second-order effects out.
pub open spec fn factor_matches(point: CurvePointFacts, node: CurveNodeFacts, factor: FactorDefinitionFacts) -> bool {
    &&& factor.factor_unit@ == node.factor_unit@
    &&& factor.bump_unit@ == point.yield_unit@
    &&& factor.rebuilds_curve
    &&& factor.excludes_second_order
}

/// Checks a factor definition against its node and point; a validation error otherwise.
pub fn validate_factor(point: &CurvePointFacts, node: &CurveNodeFacts, factor: &FactorDefinitionFacts) -> (result:
    ApplicationResult<()>)
    ensures
        result is Ok <==> factor_matches(*point, *node, *factor),
        result matches Err(e) ==> e == failure(ApplicationErrorCategory::ValidationFailed),
{
    if !factor.factor_unit.same_as(&node.factor_unit) || !factor.bump_unit.same_as(&point.yield_unit)
        || !factor.rebuilds_curve || !factor.excludes_second_order {
        return Err(validation());
    }
    Ok(())
}

/// The bytes a key-rate calculation's trace is derived from: the position and curve snapshot
/// identifiers, then the knowledge instant's whole Unix seconds in eight big-endian bytes.
pub open spec fn key_rate_trace_bytes(command: KeyRateCommandFacts) -> Seq<u8> {
    text_bytes(command.position_snapshot_id@) + text_bytes(command.curve_snapshot_id@) + be_u64(
        command.knowledge_at.instant.seconds as u64,
    )
}

/// The safe trace token of a key-rate calculation: the first sixteen digest bytes of its trace
/// input, in lowercase hexadecimal.
pub fn key_rate_trace_token(command: &KeyRateCommandFacts) -> (token: String)
    ensures
        token@ == hex_text(sha256(key_rate_trace_bytes(*command)).subrange(0, 16)),
{
    let mut bytes: Vec<u8> = Vec::new();
    push_all(&mut bytes, command.position_snapshot_id.as_str().as_bytes());
    push_all(&mut bytes, command.curve_snapshot_id.as_str().as_bytes());
    push_be_u64(&mut bytes, command.knowledge_at.instant.seconds as u64);
    assert(bytes@ =~= key_rate_trace_bytes(*command));
    let digest = content_digest(bytes.as_slice());
    let head = vstd::slice::slice_subrange(digest.as_slice(), 0, 16);
    encode_hex(head)
}

/// A curve point's node is the node it names — identifier and content hash — of the curve's
/// family, in the point's yield Unit.
pub proof fn law_node_fields(curve_family_id: Option<String>, point: CurvePointFacts, node: CurveNodeFacts)
    ensures
        node_matches(curve_family_id, point, node) ==> {
            &&& node.curve_node_id@ == point.curve_node_id@
            &&& node.content_hash@ == point.curve_node_content_hash@
            &&& curve_family_id is Some
            &&& curve_family_id->0@ == node.curve_family_id@
            &&& node.factor_unit@ == point.yield_unit@
        },
{
}

/// A key-rate factor fits its node and point: its factor Unit is the node's, its bump Unit the
/// point's yield Unit, and it rebuilds the curve without second-order terms.
pub proof fn law_factor_fields(point: CurvePointFacts, node: CurveNodeFacts, factor: FactorDefinitionFacts)
    ensures
        factor_matches(point, node, factor) ==> {
            &&& factor.factor_unit@ == node.factor_unit@
            &&& factor.bump_unit@ == point.yield_unit@
            &&& factor.rebuilds_curve
            &&& factor.excludes_second_order
        },
{
}

/// A decimal fits a registered Unit only when the Unit is the value's own — identity and
/// version — of the expected owner and dimension, and the value's scale does not exceed the
/// Unit's.
pub proof fn law_decimal_unit_fields(
    value: DecimalValue,
    unit: RegisteredUnitFacts,
    expected_dimension: Seq<char>,
    expected_owner: OwnerRef,
)
    ensures
        decimal_fits_unit(value, unit, expected_dimension, expected_owner) ==> {
            &&& unit.identity@ == value.unit.unit_id@
            &&& unit.version == value.unit.version
            &&& unit.owner.tenant_id@ == expected_owner.tenant_id@
            &&& unit.owner.owner_id@ == expected_owner.owner_id@
            &&& unit.dimension@ == expected_dimension
            &&& value.scale <= unit.scale
        },
{
}

/// A settlement is open only on a calendar session of that date with both an opening and a
/// closing time.
pub proof fn law_open_settlement_fields(sessions: Seq<CalendarSession>, settlement: LocalDate)
    ensures
        settlement_open(sessions, settlement) ==> exists|i: int|
            0 <= i < sessions.len() && (#[trigger] sessions[i]).local_date.year == settlement.year
                && sessions[i].local_date.month == settlement.month && sessions[i].local_date.day == settlement.day
                && sessions[i].open_local_time is Some && sessions[i].close_local_time is Some,
{
}

} // verus!
