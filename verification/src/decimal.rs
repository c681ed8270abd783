use vstd::prelude::*;
use vstd::arithmetic::div_mod::*;
use vstd::arithmetic::mul::*;

use crate::error::{ApplicationErrorCategory, ApplicationResult, failure, validation};

verus! {

/// Scale of every `FixedDecimal`: a value is its scaled integer divided by `10^12`.
pub const FIXED_DECIMAL_SCALE: u32 = 12;

/// Largest scale that a `DecimalValue` may carry.
pub const MAX_DECIMAL_SCALE: u32 = 28;

/// `10^n`.
pub open spec fn pow10(n: nat) -> int
    decreases n,
{
    if n == 0 {
        1
    } else {
        10 * pow10((n - 1) as nat)
    }
}

pub proof fn lemma_pow10_positive(n: nat)
    ensures
        pow10(n) >= 1,
    decreases n,
{
    if n > 0 {
        lemma_pow10_positive((n - 1) as nat);
    }
}

pub proof fn lemma_pow10_monotone(a: nat, b: nat)
    requires
        a <= b,
    ensures
        pow10(a) <= pow10(b),
    decreases b,
{
    if a < b {
        lemma_pow10_monotone(a, (b - 1) as nat);
        lemma_pow10_positive((b - 1) as nat);
    }
}

pub proof fn lemma_pow10_add(a: nat, b: nat)
    ensures
        pow10(a + b) == pow10(a) * pow10(b),
    decreases b,
{
    if b > 0 {
        lemma_pow10_add(a, (b - 1) as nat);
        assert(pow10(a + b) == 10 * pow10((a + b - 1) as nat));
        assert((a + (b - 1)) as nat == (a + b - 1) as nat);
        lemma_mul_is_associative(10, pow10(a), pow10((b - 1) as nat));
        lemma_mul_is_commutative(10, pow10(a));
        lemma_mul_is_associative(pow10(a), 10, pow10((b - 1) as nat));
    }
}

proof fn lemma_pow10_limits()
    ensures
        pow10(38) <= i128::MAX,
        pow10(39) > i128::MAX,
{
    reveal_with_fuel(pow10, 40);
    assert(pow10(38) == 100000000000000000000000000000000000000int);
    assert(pow10(39) == 1000000000000000000000000000000000000000int);
}

/// `10^exponent`, computed with overflow checks.
pub fn checked_power_of_ten(exponent: u32) -> (result: ApplicationResult<i128>)
    ensures
        result is Ok <==> exponent <= 38,
        result matches Ok(p) ==> p == pow10(exponent as nat),
        result matches Err(e) ==> e == failure(ApplicationErrorCategory::ValidationFailed),
{
    proof {
        lemma_pow10_limits();
    }
    let mut value: i128 = 1;
    let mut i: u32 = 0;
    while i < exponent
        invariant
            i <= exponent,
            value == pow10(i as nat),
            pow10(38) <= i128::MAX,
            pow10(39) > i128::MAX,
        decreases exponent - i,
    {
        proof {
            lemma_pow10_positive(i as nat);
        }
        match value.checked_mul(10) {
            Some(next) => {
                value = next;
            },
            None => {
                proof {
                    assert(pow10((i + 1) as nat) == 10 * value);
                    if exponent <= 38 {
                        lemma_pow10_monotone((i + 1) as nat, 38);
                    }
                }
                return Err(validation());
            },
        }
        i = i + 1;
    }
    proof {
        if exponent > 38 {
            lemma_pow10_monotone(39, exponent as nat);
        }
    }
    Ok(value)
}

/// `m / d` rounded to the nearest integer, ties to the even neighbour.
pub open spec fn round_half_even_nat(m: nat, d: nat) -> nat {
    let q = m / d;
    let r = m % d;
    if 2 * r > d || (2 * r == d && q % 2 == 1) {
        q + 1
    } else {
        q
    }
}

/// `value / divisor` rounded half to even, symmetrically around zero.
pub open spec fn round_half_even(value: int, divisor: int) -> int {
    if value >= 0 {
        round_half_even_nat(value as nat, divisor as nat) as int
    } else {
        -(round_half_even_nat((-value) as nat, divisor as nat) as int)
    }
}

pub proof fn lemma_round_half_even_nat_bounded(m: nat, d: nat)
    requires
        d > 0,
    ensures
        round_half_even_nat(m, d) <= m,
{
    let q = m / d;
    let r = m % d;
    lemma_fundamental_div_mod(m as int, d as int);
    lemma_mod_pos_bound(m as int, d as int);
    if 2 * r > d || (2 * r == d && q % 2 == 1) {
        assert(d >= 2);
        assert(q * d >= q * 2) by (nonlinear_arith)
            requires
                d >= 2,
                q >= 0,
        ;
        assert(q * d == d * q) by (nonlinear_arith);
        if q == 0 {
            assert(r >= 1);
        }
    } else {
        assert(q * d >= q) by (nonlinear_arith)
            requires
                d >= 1,
                q >= 0,
        ;
        assert(q * d == d * q) by (nonlinear_arith);
    }
}

/// Divides with round-half-even; the divisor must be positive.
pub fn round_div_ties_even(value: i128, divisor: i128) -> (result: ApplicationResult<i128>)
    ensures
        result is Ok <==> divisor > 0,
        result matches Ok(c) ==> c == round_half_even(value as int, divisor as int),
        result matches Err(e) ==> e == failure(ApplicationErrorCategory::ValidationFailed),
{
    if divisor <= 0 {
        return Err(validation());
    }
    let negative = value < 0;
    let magnitude: u128 = if negative {
        ((-(value + 1)) as u128) + 1
    } else {
        value as u128
    };
    let ghost m: nat = if value >= 0 { value as nat } else { (-value) as nat };
    assert(magnitude == m);
    let d = divisor as u128;
    let mut quotient = magnitude / d;
    let remainder = magnitude % d;
    let distance_to_divisor = d - remainder;
    proof {
        lemma_round_half_even_nat_bounded(m, d as nat);
    }
    if remainder > distance_to_divisor || (remainder == distance_to_divisor && quotient % 2 == 1) {
        quotient = match quotient.checked_add(1) {
            Some(next) => next,
            None => {
                return Err(validation());
            },
        };
    }
    assert(quotient == round_half_even_nat(m, d as nat));
    if !negative {
        return Ok(quotient as i128);
    }
    if quotient == 170141183460469231731687303715884105728u128 {
        return Ok(i128::MIN);
    }
    Ok(-(quotient as i128))
}


/// A reference to one exact version of a registered Unit.
#[derive(Clone, Debug)]
pub struct UnitRef {
    pub unit_id: String,
    pub version: u64,
}

impl View for UnitRef {
    type V = (Seq<char>, u64);

    open spec fn view(&self) -> (Seq<char>, u64) {
        (self.unit_id@, self.version)
    }
}

impl UnitRef {
    pub fn new(unit_id: String, version: u64) -> (unit: Self)
        ensures
            unit.unit_id == unit_id,
            unit.version == version,
    {
        UnitRef { unit_id, version }
    }

    /// An owned copy of this reference.
    pub fn duplicate(&self) -> (copy: UnitRef)
        ensures
            copy == *self,
    {
        UnitRef { unit_id: self.unit_id.clone(), version: self.version }
    }

    /// Whether both references name the same Unit version.
    pub fn same_as(&self, other: &UnitRef) -> (same: bool)
        ensures
            same == (self@ == other@),
    {
        self.version == other.version && self.unit_id == other.unit_id
    }
}

/// A decimal with the canonical scale of twelve fractional digits.
#[derive(Clone, Copy, Debug, PartialEq, Eq, Structural)]
pub struct FixedDecimal {
    pub scaled: i128,
}

impl FixedDecimal {
    pub fn from_scaled(scaled: i128) -> (value: Self)
        ensures
            value.scaled == scaled,
    {
        FixedDecimal { scaled }
    }

    pub fn scaled(&self) -> (scaled: i128)
        ensures
            scaled == self.scaled,
    {
        self.scaled
    }

    pub fn is_positive(&self) -> (positive: bool)
        ensures
            positive == (self.scaled > 0),
    {
        self.scaled > 0
    }

    pub fn is_non_negative(&self) -> (non_negative: bool)
        ensures
            non_negative == (self.scaled >= 0),
    {
        self.scaled >= 0
    }
}

/// A decimal `coefficient * 10^-scale` measured in one Unit.
#[derive(Clone, Debug)]
pub struct DecimalValue {
    pub coefficient: i128,
    pub scale: u32,
    pub unit: UnitRef,
}

impl DecimalValue {
    /// Builds a decimal; the scale may not exceed `MAX_DECIMAL_SCALE`.
    pub fn new(coefficient: i128, scale: u32, unit: UnitRef) -> (result: ApplicationResult<Self>)
        ensures
            result is Ok <==> scale <= MAX_DECIMAL_SCALE,
            result matches Ok(value) ==> value.coefficient == coefficient && value.scale == scale
                && value.unit == unit,
            result matches Err(e) ==> e == failure(ApplicationErrorCategory::ValidationFailed),
    {
        if scale > MAX_DECIMAL_SCALE {
            return Err(validation());
        }
        Ok(DecimalValue { coefficient, scale, unit })
    }

    /// An owned copy of this decimal.
    pub fn duplicate(&self) -> (copy: DecimalValue)
        ensures
            copy == *self,
    {
        DecimalValue { coefficient: self.coefficient, scale: self.scale, unit: self.unit.duplicate() }
    }
}

pub open spec fn in_i128(value: int) -> bool {
    i128::MIN <= value <= i128::MAX
}

/// The scaled integer at scale twelve that denotes exactly `coefficient * 10^-scale`, if any.
pub open spec fn fixed_scaled_of(coefficient: int, scale: nat) -> Option<int> {
    if scale <= 12 {
        Some(coefficient * pow10((12 - scale) as nat))
    } else if scale - 12 > 38 {
        None
    } else if coefficient % pow10((scale - 12) as nat) == 0 {
        Some(coefficient / pow10((scale - 12) as nat))
    } else {
        None
    }
}

/// Whether a decimal converts exactly to a `FixedDecimal`.
pub open spec fn converts_to_fixed(value: DecimalValue) -> bool {
    fixed_scaled_of(value.coefficient as int, value.scale as nat) matches Some(v) && in_i128(v)
}

/// The coefficient of a `FixedDecimal` written at `scale`, rounding half to even.
pub open spec fn coefficient_at_scale(scaled: int, scale: nat) -> Option<int> {
    if scale > 28 {
        None
    } else if scale <= 12 {
        Some(round_half_even(scaled, pow10((12 - scale) as nat)))
    } else {
        Some(scaled * pow10((scale - 12) as nat))
    }
}

pub open spec fn fixed_writes_at(scaled: int, scale: nat) -> bool {
    coefficient_at_scale(scaled, scale) matches Some(c) && in_i128(c)
}

/// Exact division of a signed integer by a positive divisor that divides it.
pub proof fn lemma_exact_division(c: int, m: nat, p: int, k: int)
    requires
        p > 0,
        m == p * k,
        c == m || c == -m,
    ensures
        c % p == 0,
        c == m ==> c / p == k,
        c == -m ==> c / p == -k,
{
    if c == m {
        lemma_mod_multiples_basic(k, p);
        lemma_div_multiples_vanish(k, p);
        assert(k * p == p * k) by (nonlinear_arith);
    } else {
        assert(c == p * (-k)) by (nonlinear_arith)
            requires
                c == -m,
                m == p * k,
        ;
        lemma_mod_multiples_basic(-k, p);
        lemma_div_multiples_vanish(-k, p);
        assert((-k) * p == p * (-k)) by (nonlinear_arith);
    }
}

pub proof fn lemma_not_divisible(c: int, m: nat, p: int)
    requires
        p > 0,
        (m as int) % p != 0,
        c == m || c == -m,
    ensures
        c % p != 0,
{
    if c % p == 0 {
        lemma_fundamental_div_mod(c, p);
        let k = c / p;
        assert(c == p * k);
        if c == m {
            lemma_exact_division(m as int, m, p, k);
        } else {
            assert(m == p * (-k)) by (nonlinear_arith)
                requires
                    c == p * k,
                    c == -m,
            ;
            lemma_exact_division(m as int, m, p, -k);
        }
    }
}

/// Converts a decimal to scale twelve, failing unless the conversion is exact.
pub fn decimal_to_fixed(value: &DecimalValue) -> (result: ApplicationResult<FixedDecimal>)
    ensures
        result is Ok <==> converts_to_fixed(*value),
        result matches Ok(f) ==> fixed_scaled_of(value.coefficient as int, value.scale as nat)
            == Some(f.scaled as int),
        result matches Err(e) ==> e == failure(ApplicationErrorCategory::ValidationFailed),
{
    let coefficient = value.coefficient;
    if value.scale <= FIXED_DECIMAL_SCALE {
        let factor = match checked_power_of_ten(FIXED_DECIMAL_SCALE - value.scale) {
            Ok(f) => f,
            Err(e) => {
                return Err(e);
            },
        };
        match coefficient.checked_mul(factor) {
            Some(scaled) => Ok(FixedDecimal::from_scaled(scaled)),
            None => Err(validation()),
        }
    } else {
        let divisor = match checked_power_of_ten(value.scale - FIXED_DECIMAL_SCALE) {
            Ok(d) => d,
            Err(e) => {
                return Err(e);
            },
        };
        proof {
            lemma_pow10_positive((value.scale - 12) as nat);
        }
        let negative = coefficient < 0;
        let magnitude: u128 = if negative {
            ((-(coefficient + 1)) as u128) + 1
        } else {
            coefficient as u128
        };
        let ghost m: nat = magnitude as nat;
        let d = divisor as u128;
        if magnitude % d != 0 {
            proof {
                lemma_not_divisible(coefficient as int, m, divisor as int);
            }
            return Err(validation());
        }
        let q = magnitude / d;
        proof {
            lemma_fundamental_div_mod(m as int, d as int);
            lemma_exact_division(coefficient as int, m, divisor as int, q as int);
            assert(q <= magnitude) by {
                lemma_div_is_ordered_by_denominator(m as int, 1, d as int);
            }
        }
        if negative {
            if q == 170141183460469231731687303715884105728u128 {
                Ok(FixedDecimal::from_scaled(i128::MIN))
            } else {
                Ok(FixedDecimal::from_scaled(-(q as i128)))
            }
        } else {
            Ok(FixedDecimal::from_scaled(q as i128))
        }
    }
}

/// Writes a `FixedDecimal` at `output_scale`, rounding half to even when digits are dropped.
pub fn fixed_to_decimal(value: FixedDecimal, output_scale: u32, unit: UnitRef) -> (result:
    ApplicationResult<DecimalValue>)
    ensures
        result is Ok <==> fixed_writes_at(value.scaled as int, output_scale as nat),
        result matches Ok(d) ==> coefficient_at_scale(value.scaled as int, output_scale as nat)
            == Some(d.coefficient as int) && d.scale == output_scale && d.unit == unit,
        result matches Err(e) ==> e == failure(ApplicationErrorCategory::ValidationFailed),
{
    if output_scale > MAX_DECIMAL_SCALE {
        return Err(validation());
    }
    let coefficient = if output_scale <= FIXED_DECIMAL_SCALE {
        let divisor = match checked_power_of_ten(FIXED_DECIMAL_SCALE - output_scale) {
            Ok(d) => d,
            Err(e) => {
                return Err(e);
            },
        };
        proof {
            lemma_pow10_positive((12 - output_scale) as nat);
        }
        match round_div_ties_even(value.scaled(), divisor) {
            Ok(c) => c,
            Err(e) => {
                return Err(e);
            },
        }
    } else {
        let factor = match checked_power_of_ten(output_scale - FIXED_DECIMAL_SCALE) {
            Ok(f) => f,
            Err(e) => {
                return Err(e);
            },
        };
        match value.scaled().checked_mul(factor) {
            Some(c) => c,
            None => {
                return Err(validation());
            },
        }
    };
    DecimalValue::new(coefficient, output_scale, unit)
}


/// Half-even rounding picks a nearest integer quotient, and the even one on a tie.
pub proof fn law_round_half_even_is_nearest(value: int, divisor: int)
    requires
        divisor > 0,
    ensures
        2 * (value - divisor * round_half_even(value, divisor)) <= divisor,
        -divisor <= 2 * (value - divisor * round_half_even(value, divisor)),
        2 * (value - divisor * round_half_even(value, divisor)) == divisor
            || 2 * (value - divisor * round_half_even(value, divisor)) == -divisor
            ==> round_half_even(value, divisor) % 2 == 0,
{
    let m: nat = if value >= 0 { value as nat } else { (-value) as nat };
    let d = divisor as nat;
    let q = m / d;
    let r = m % d;
    lemma_fundamental_div_mod(m as int, d as int);
    lemma_mod_pos_bound(m as int, d as int);
    let rounded = round_half_even_nat(m, d);
    assert(d * (q + 1) == d * q + d) by (nonlinear_arith);
    if value >= 0 {
        assert(round_half_even(value, divisor) == rounded);
    } else {
        assert(round_half_even(value, divisor) == -(rounded as int));
        assert(divisor * (-(rounded as int)) == -(d * rounded)) by (nonlinear_arith)
            requires
                d == divisor,
        ;
        if rounded % 2 == 0 {
            assert((-(rounded as int)) % 2 == 0) by {
                lemma_fundamental_div_mod(rounded as int, 2);
                lemma_exact_division(-(rounded as int), rounded, 2, (rounded as int) / 2);
            }
        }
    }
}

/// Writing a `FixedDecimal` at any scale from twelve to twenty-eight and converting it back
/// to scale twelve gives the same value.
pub proof fn law_fixed_decimal_round_trip(scaled: int, scale: nat)
    requires
        12 <= scale <= 28,
        fixed_writes_at(scaled, scale),
    ensures
        coefficient_at_scale(scaled, scale) matches Some(c) && fixed_scaled_of(c, scale) == Some(
            scaled,
        ),
{
    let p = pow10((scale - 12) as nat);
    lemma_pow10_positive((scale - 12) as nat);
    if scale > 12 {
        lemma_mod_multiples_basic(scaled, p);
        lemma_div_multiples_vanish(scaled, p);
        assert(p * scaled == scaled * p) by (nonlinear_arith);
    } else {
        assert(pow10(0) == 1);
    }
}

} // verus!
