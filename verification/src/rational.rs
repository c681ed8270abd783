use vstd::prelude::*;
use vstd::arithmetic::div_mod::{
    lemma_fundamental_div_mod, lemma_fundamental_div_mod_converse, lemma_mod_pos_bound,
};

use crate::decimal::{
    DecimalValue, FixedDecimal, MAX_DECIMAL_SCALE, UnitRef, checked_power_of_ten, lemma_pow10_positive, pow10,
    round_div_ties_even, round_half_even, round_half_even_nat,
};
use crate::error::{ApplicationErrorCategory, ApplicationResult, failure, validation};

verus! {

/// Greatest common divisor by Euclid's algorithm.
pub open spec fn gcd(a: nat, b: nat) -> nat
    decreases b,
{
    if b == 0 {
        a
    } else {
        gcd(b, a % b)
    }
}

/// `d` divides `x` exactly.
pub open spec fn divides(d: int, x: int) -> bool {
    d != 0 && x % d == 0
}

proof fn lemma_divides_linear(d: int, a: int, b: int, q: int)
    requires
        d > 0,
        a % d == 0,
        b % d == 0,
    ensures
        (a - q * b) % d == 0,
{
    lemma_fundamental_div_mod(a, d);
    lemma_fundamental_div_mod(b, d);
    let ka = a / d;
    let kb = b / d;
    assert(a - q * b == d * (ka - q * kb)) by (nonlinear_arith)
        requires
            a == d * ka,
            b == d * kb,
    ;
    lemma_fundamental_div_mod_converse(a - q * b, d, ka - q * kb, 0);
}

pub proof fn lemma_gcd_divides(a: nat, b: nat)
    requires
        a > 0,
    ensures
        gcd(a, b) > 0,
        (a as int) % (gcd(a, b) as int) == 0,
        (b as int) % (gcd(a, b) as int) == 0,
    decreases b,
{
    if b == 0 {
        lemma_fundamental_div_mod_converse(a as int, a as int, 1, 0);
        lemma_fundamental_div_mod_converse(0, a as int, 0, 0);
    } else {
        lemma_mod_pos_bound(a as int, b as int);
        let r = a % b;
        lemma_gcd_divides(b, r);
        let g = gcd(b, r) as int;
        lemma_fundamental_div_mod(a as int, b as int);
        let q = (a as int) / (b as int);
        assert(a as int == b * q + r);
        assert((r as int) + q * (b as int) == a as int) by (nonlinear_arith)
            requires
                a as int == b * q + r,
        ;
        lemma_divides_linear(g, r as int, b as int, -q);
        assert((r as int) - (-q) * (b as int) == a as int) by (nonlinear_arith)
            requires
                (r as int) + q * (b as int) == a as int,
        ;
    }
}

/// The greatest common divisor of two positive integers.
pub fn positive_greatest_common_divisor(left: i128, right: i128) -> (divisor: i128)
    requires
        left > 0,
        right > 0,
    ensures
        divisor == gcd(left as nat, right as nat),
        divisor > 0,
        divides(divisor as int, left as int),
        divides(divisor as int, right as int),
{
    let mut left = left;
    let mut right = right;
    let ghost a = left as nat;
    let ghost b = right as nat;
    while right != 0
        invariant
            left > 0,
            right >= 0,
            gcd(left as nat, right as nat) == gcd(a, b),
        decreases right,
    {
        let remainder = left % right;
        proof {
            lemma_mod_pos_bound(left as int, right as int);
        }
        left = right;
        right = remainder;
    }
    proof {
        lemma_gcd_divides(a, b);
    }
    left
}

/// The greatest common divisor of a non-empty sequence of positive integers, folded from
/// the left.
pub open spec fn gcd_of(values: Seq<int>) -> nat
    decreases values.len(),
{
    if values.len() <= 1 {
        if values.len() == 0 {
            0
        } else {
            values[0] as nat
        }
    } else {
        gcd(gcd_of(values.drop_last()), values.last() as nat)
    }
}

/// The integers of a sequence of `i128`.
pub open spec fn ints(values: Seq<i128>) -> Seq<int> {
    values.map_values(|v: i128| v as int)
}

pub open spec fn all_positive(values: Seq<int>) -> bool {
    forall|i: int| 0 <= i < values.len() ==> values[i] > 0
}

pub proof fn lemma_gcd_of_divides(values: Seq<int>)
    requires
        values.len() >= 1,
        all_positive(values),
    ensures
        gcd_of(values) > 0,
        forall|i: int| 0 <= i < values.len() ==> divides(gcd_of(values) as int, #[trigger] values[i] as int),
    decreases values.len(),
{
    if values.len() == 1 {
        lemma_gcd_divides(values[0] as nat, 0);
    } else {
        let prefix = values.drop_last();
        lemma_gcd_of_divides(prefix);
        let g0 = gcd_of(prefix);
        lemma_gcd_divides(g0, values.last() as nat);
        let g = gcd_of(values);
        assert forall|i: int| 0 <= i < values.len() implies divides(g as int, #[trigger] values[i] as int) by {
            if i < values.len() - 1 {
                assert(prefix[i] == values[i]);
                lemma_fundamental_div_mod(values[i] as int, g0 as int);
                lemma_fundamental_div_mod(g0 as int, g as int);
                let k1 = (values[i] as int) / (g0 as int);
                let k2 = (g0 as int) / (g as int);
                assert(values[i] as int == g * (k2 * k1)) by (nonlinear_arith)
                    requires
                        values[i] as int == g0 * k1,
                        g0 as int == g * k2,
                ;
                lemma_fundamental_div_mod_converse(values[i] as int, g as int, k2 * k1, 0);
            }
        }
    }
}

/// The largest positive integer dividing every value; all values must be positive.
pub fn common_positive_divisor(values: &[i128]) -> (result: ApplicationResult<i128>)
    ensures
        result is Ok <==> values@.len() >= 1 && all_positive(ints(values@)),
        result matches Ok(g) ==> g == gcd_of(ints(values@)) && g > 0 && forall|i: int|
            0 <= i < values@.len() ==> divides(g as int, #[trigger] values@[i] as int),
        result matches Err(e) ==> e == failure(ApplicationErrorCategory::ValidationFailed),
{
    if values.len() == 0 {
        return Err(validation());
    }
    let first = values[0];
    if first <= 0 {
        assert(ints(values@)[0] == first as int);
        return Err(validation());
    }
    let mut divisor = first;
    let mut i: usize = 1;
    let ghost all = ints(values@);
    proof {
        assert(all.subrange(0, 1).drop_last().len() == 0);
        assert(gcd_of(all.subrange(0, 1)) == first as nat);
    }
    while i < values.len()
        invariant
            1 <= i <= values.len(),
            all == ints(values@),
            divisor > 0,
            divisor == gcd_of(all.subrange(0, i as int)),
            all_positive(all.subrange(0, i as int)),
        decreases values.len() - i,
    {
        let value = values[i];
        if value <= 0 {
            assert(all[i as int] == value as int);
            return Err(validation());
        }
        proof {
            let next = all.subrange(0, i + 1);
            assert(next.drop_last() == all.subrange(0, i as int));
            assert(next.last() == value);
        }
        divisor = positive_greatest_common_divisor(divisor, value);
        i = i + 1;
    }
    proof {
        assert(all.subrange(0, values@.len() as int) == all);
        lemma_gcd_of_divides(all);
        assert forall|i: int| 0 <= i < values@.len() implies divides(divisor as int, #[trigger] values@[i] as int) by {
            assert(all[i] == values@[i] as int);
        }
    }
    Ok(divisor)
}

/// The product of two positive raw scaled integers.
pub fn checked_raw_product(left: i128, right: i128) -> (result: ApplicationResult<i128>)
    ensures
        result is Ok <==> left > 0 && right > 0 && left * right <= i128::MAX,
        result matches Ok(p) ==> p == left * right,
        result matches Err(e) ==> e == failure(ApplicationErrorCategory::ValidationFailed),
{
    if left <= 0 || right <= 0 {
        return Err(validation());
    }
    proof {
        assert(left * right > 0) by (nonlinear_arith)
            requires
                left > 0,
                right > 0,
        ;
    }
    match left.checked_mul(right) {
        Some(p) => Ok(p),
        None => Err(validation()),
    }
}


/// Every digit step of the long division of `numerator * 10^scale` by `denominator` stays
/// within `i128`.
pub open spec fn expansion_fits(numerator: int, denominator: int, additional_scale: nat) -> bool {
    forall|i: nat|
        i < additional_scale ==> 10 * ((numerator * #[trigger] pow10(i)) % denominator) <= i128::MAX
            && (numerator * pow10(i + 1)) / denominator <= i128::MAX
}

proof fn lemma_digit_step(x: int, d: int)
    requires
        x >= 0,
        d > 0,
    ensures
        (10 * x) / d == 10 * (x / d) + (10 * (x % d)) / d,
        (10 * x) % d == (10 * (x % d)) % d,
{
    lemma_fundamental_div_mod(x, d);
    lemma_mod_pos_bound(x, d);
    let q = x / d;
    let r = x % d;
    lemma_fundamental_div_mod(10 * r, d);
    lemma_mod_pos_bound(10 * r, d);
    let q2 = (10 * r) / d;
    let r2 = (10 * r) % d;
    assert(10 * x == d * (10 * q + q2) + r2) by (nonlinear_arith)
        requires
            x == d * q + r,
            10 * r == d * q2 + r2,
    ;
    lemma_fundamental_div_mod_converse(10 * x, d, 10 * q + q2, r2);
}

proof fn lemma_expand_step(n: int, d: int, step: nat)
    requires
        n >= 0,
        d > 0,
    ensures
        n * pow10(step) >= 0,
        n * pow10(step + 1) == 10 * (n * pow10(step)),
        (10 * (n * pow10(step))) / d == 10 * ((n * pow10(step)) / d) + (10 * ((n * pow10(step))
            % d)) / d,
        (10 * (n * pow10(step))) % d == (10 * ((n * pow10(step)) % d)) % d,
        0 <= (n * pow10(step)) % d < d,
        (n * pow10(step)) / d >= 0,
        (10 * ((n * pow10(step)) % d)) / d >= 0,
{
    let p = pow10(step);
    lemma_pow10_positive(step);
    assert(pow10(step + 1) == 10 * p);
    let x = n * p;
    assert(x >= 0) by (nonlinear_arith)
        requires
            x == n * p,
            n >= 0,
            p >= 1,
    ;
    assert(n * (10 * p) == 10 * x) by (nonlinear_arith)
        requires
            x == n * p,
    ;
    lemma_digit_step(x, d);
    lemma_fundamental_div_mod(x, d);
    lemma_mod_pos_bound(x, d);
    lemma_mod_pos_bound(10 * (x % d), d);
    lemma_fundamental_div_mod(10 * (x % d), d);
    let q2 = (10 * (x % d)) / d;
    let r2 = (10 * (x % d)) % d;
    assert(q2 >= 0) by (nonlinear_arith)
        requires
            10 * (x % d) == d * q2 + r2,
            0 <= r2 < d,
            x % d >= 0,
    ;
    let q = x / d;
    let r = x % d;
    assert(q >= 0) by (nonlinear_arith)
        requires
            x == d * q + r,
            0 <= r < d,
            x >= 0,
    ;
}

/// `numerator / denominator` written with `additional_scale` more fractional digits, rounded
/// half to even: the half-even rounding of `numerator * 10^additional_scale / denominator`.
#[verifier::rlimit(40)]
pub fn expand_rational_scale(numerator: i128, denominator: i128, additional_scale: u32) -> (result:
    ApplicationResult<i128>)
    requires
        numerator >= 0,
        denominator > 0,
    ensures
        result is Ok <==> expansion_fits(numerator as int, denominator as int, additional_scale as nat)
            && round_half_even_nat(
            (numerator * pow10(additional_scale as nat)) as nat,
            denominator as nat,
        ) <= i128::MAX,
        result matches Ok(c) ==> c == round_half_even_nat(
            (numerator * pow10(additional_scale as nat)) as nat,
            denominator as nat,
        ),
        result matches Err(e) ==> e == failure(ApplicationErrorCategory::ValidationFailed),
{
    let ghost n = numerator as int;
    let ghost d = denominator as int;
    let mut coefficient = numerator / denominator;
    let mut remainder = numerator % denominator;
    let mut step: u32 = 0;
    proof {
        assert(pow10(0) == 1);
        assert(n * pow10(0) == n);
    }
    while step < additional_scale
        invariant
            step <= additional_scale,
            n >= 0,
            numerator == n,
            denominator == d,
            d > 0,
            coefficient == (n * pow10(step as nat)) / d,
            remainder == (n * pow10(step as nat)) % d,
            forall|i: nat|
                i < step ==> 10 * ((n * #[trigger] pow10(i)) % d) <= i128::MAX && (n * pow10(i + 1))
                    / d <= i128::MAX,
        decreases additional_scale - step,
    {
        proof {
            lemma_expand_step(n, d, step as nat);
        }
        let ghost x = n * pow10(step as nat);
        let scaled = match coefficient.checked_mul(10) {
            Some(value) => value,
            None => {
                proof {
                    assert((n * pow10((step + 1) as nat)) / d > i128::MAX);
                    assert(!expansion_fits(n, d, additional_scale as nat));
                }
                return Err(validation());
            },
        };
        let expanded_remainder = match remainder.checked_mul(10) {
            Some(value) => value,
            None => {
                proof {
                    assert(10 * ((n * pow10(step as nat)) % d) > i128::MAX);
                    assert(!expansion_fits(n, d, additional_scale as nat));
                }
                return Err(validation());
            },
        };
        coefficient = match scaled.checked_add(expanded_remainder / denominator) {
            Some(value) => value,
            None => {
                proof {
                    assert((n * pow10((step + 1) as nat)) / d > i128::MAX);
                    assert(!expansion_fits(n, d, additional_scale as nat));
                }
                return Err(validation());
            },
        };
        remainder = expanded_remainder % denominator;
        step = step + 1;
    }
    proof {
        lemma_expand_step(n, d, additional_scale as nat);
    }
    let distance_to_denominator = denominator - remainder;
    if remainder > distance_to_denominator || (remainder == distance_to_denominator && coefficient
        % 2 == 1) {
        coefficient = match coefficient.checked_add(1) {
            Some(value) => value,
            None => {
                return Err(validation());
            },
        };
    }
    Ok(coefficient)
}

/// The output coefficient of the weighted average `numerator / denominator` (a value at
/// scale twelve) written at `output_scale`.
pub open spec fn weighted_average_coefficient(numerator: int, denominator: int, output_scale: nat) -> int {
    if output_scale <= 12 {
        round_half_even(numerator, denominator * pow10((12 - output_scale) as nat))
    } else {
        round_half_even_nat(
            (numerator * pow10((output_scale - 12) as nat)) as nat,
            denominator as nat,
        ) as int
    }
}

/// Whether `weighted_average_coefficient` is computed without leaving `i128`.
pub open spec fn weighted_average_fits(numerator: int, denominator: int, output_scale: nat) -> bool {
    if output_scale <= 12 {
        denominator * pow10((12 - output_scale) as nat) <= i128::MAX
    } else {
        expansion_fits(numerator, denominator, (output_scale - 12) as nat) && round_half_even_nat(
            (numerator * pow10((output_scale - 12) as nat)) as nat,
            denominator as nat,
        ) <= i128::MAX
    }
}

/// Converts the exact rational weighted average `numerator / denominator` (at scale twelve)
/// to a decimal at `output_scale`, rounding half to even.
pub fn rational_weighted_average_to_decimal(
    numerator: i128,
    denominator: i128,
    output_scale: u32,
    unit: UnitRef,
) -> (result: ApplicationResult<DecimalValue>)
    ensures
        result is Ok <==> numerator >= 0 && denominator > 0 && output_scale <= MAX_DECIMAL_SCALE
            && weighted_average_fits(numerator as int, denominator as int, output_scale as nat),
        result matches Ok(value) ==> value.coefficient == weighted_average_coefficient(
            numerator as int,
            denominator as int,
            output_scale as nat,
        ) && value.scale == output_scale && value.unit == unit,
        result matches Err(e) ==> e == failure(ApplicationErrorCategory::ValidationFailed),
{
    if numerator < 0 || denominator <= 0 || output_scale > MAX_DECIMAL_SCALE {
        return Err(validation());
    }
    let coefficient = if output_scale <= 12 {
        let scale_divisor = match checked_power_of_ten(12 - output_scale) {
            Ok(value) => value,
            Err(e) => {
                return Err(e);
            },
        };
        proof {
            lemma_pow10_positive((12 - output_scale) as nat);
            assert(denominator * scale_divisor > 0) by (nonlinear_arith)
                requires
                    denominator > 0,
                    scale_divisor > 0,
            ;
        }
        let final_denominator = match denominator.checked_mul(scale_divisor) {
            Some(value) => value,
            None => {
                return Err(validation());
            },
        };
        match round_div_ties_even(numerator, final_denominator) {
            Ok(value) => value,
            Err(e) => {
                return Err(e);
            },
        }
    } else {
        match expand_rational_scale(numerator, denominator, output_scale - 12) {
            Ok(value) => value,
            Err(e) => {
                return Err(e);
            },
        }
    };
    DecimalValue::new(coefficient, output_scale, unit)
}


/// The sum of a sequence.
pub open spec fn seq_sum(values: Seq<int>) -> int
    decreases values.len(),
{
    if values.len() == 0 {
        0
    } else {
        seq_sum(values.drop_last()) + values.last()
    }
}

/// `sum(weights[i] * values[i])` over the common prefix.
pub open spec fn dot(weights: Seq<int>, values: Seq<int>) -> int
    decreases weights.len(),
{
    if weights.len() == 0 || values.len() == 0 {
        0
    } else {
        dot(weights.drop_last(), values.drop_last()) + weights.last() * values.last()
    }
}

/// The weights divided by their greatest common divisor.
pub open spec fn reduced_weights(weights: Seq<int>) -> Seq<int> {
    Seq::new(weights.len(), |i: int| weights[i] / (gcd_of(weights) as int))
}

/// The scaled integers of fixed decimals.
pub open spec fn scaled_values(values: Seq<FixedDecimal>) -> Seq<int> {
    values.map_values(|v: FixedDecimal| v.scaled as int)
}

pub open spec fn all_non_negative(values: Seq<int>) -> bool {
    forall|i: int| 0 <= i < values.len() ==> values[i] >= 0
}

proof fn lemma_sums_grow(weights: Seq<int>, values: Seq<int>, i: int)
    requires
        weights.len() == values.len(),
        0 <= i <= weights.len(),
        all_non_negative(weights),
        all_non_negative(values),
    ensures
        0 <= dot(weights.subrange(0, i), values.subrange(0, i)) <= dot(weights, values),
        0 <= seq_sum(weights.subrange(0, i)) <= seq_sum(weights),
    decreases weights.len(),
{
    if i < weights.len() {
        let w = weights.drop_last();
        let v = values.drop_last();
        lemma_sums_grow(w, v, i);
        assert(w.subrange(0, i) == weights.subrange(0, i));
        assert(v.subrange(0, i) == values.subrange(0, i));
        let a = weights.last();
        let b = values.last();
        assert(a * b >= 0) by (nonlinear_arith)
            requires
                a >= 0,
                b >= 0,
        ;
    } else {
        assert(weights.subrange(0, i) == weights);
        assert(values.subrange(0, i) == values);
        if weights.len() > 0 {
            lemma_sums_grow(weights.drop_last(), values.drop_last(), i - 1);
            assert(weights.drop_last().subrange(0, i - 1) == weights.drop_last());
            assert(values.drop_last().subrange(0, i - 1) == values.drop_last());
            let a = weights.last();
            let b = values.last();
            assert(a * b >= 0) by (nonlinear_arith)
                requires
                    a >= 0,
                    b >= 0,
            ;
        }
    }
}

proof fn lemma_sum_at_least_length(values: Seq<int>)
    requires
        forall|k: int| 0 <= k < values.len() ==> values[k] >= 1,
    ensures
        seq_sum(values) >= values.len(),
    decreases values.len(),
{
    if values.len() > 0 {
        lemma_sum_at_least_length(values.drop_last());
    }
}

/// A running weighted average `numerator / denominator` of non-negative values.
struct RawWeightedAverage {
    numerator: i128,
    denominator: i128,
}

impl RawWeightedAverage {
    fn add(&mut self, raw_weight: i128, value: FixedDecimal) -> (result: ApplicationResult<()>)
        requires
            old(self).numerator >= 0,
            old(self).denominator >= 0,
        ensures
            result is Ok <==> raw_weight > 0 && value.scaled >= 0 && old(self).numerator + raw_weight
                * value.scaled <= i128::MAX && old(self).denominator + raw_weight <= i128::MAX,
            result is Ok ==> final(self).numerator == old(self).numerator + raw_weight * value.scaled
                && final(self).denominator == old(self).denominator + raw_weight,
            result matches Err(e) ==> e == failure(ApplicationErrorCategory::ValidationFailed),
    {
        if raw_weight <= 0 || value.scaled() < 0 {
            return Err(validation());
        }
        proof {
            assert(raw_weight * value.scaled >= 0) by (nonlinear_arith)
                requires
                    raw_weight > 0,
                    value.scaled >= 0,
            ;
        }
        let weighted_value = match raw_weight.checked_mul(value.scaled()) {
            Some(v) => v,
            None => {
                return Err(validation());
            },
        };
        let numerator = match self.numerator.checked_add(weighted_value) {
            Some(v) => v,
            None => {
                return Err(validation());
            },
        };
        let denominator = match self.denominator.checked_add(raw_weight) {
            Some(v) => v,
            None => {
                return Err(validation());
            },
        };
        self.numerator = numerator;
        self.denominator = denominator;
        Ok(())
    }
}

/// Whether the weighted average of `values` under `weights`, reduced by their common divisor,
/// is computed without leaving `i128`.
pub open spec fn weighted_average_defined(weights: Seq<int>, values: Seq<int>, output_scale: nat) -> bool {
    &&& weights.len() >= 1
    &&& all_positive(weights)
    &&& all_non_negative(values)
    &&& dot(reduced_weights(weights), values) <= i128::MAX
    &&& seq_sum(reduced_weights(weights)) <= i128::MAX
    &&& output_scale <= 28
    &&& weighted_average_fits(
        dot(reduced_weights(weights), values),
        seq_sum(reduced_weights(weights)),
        output_scale,
    )
}

/// The weighted average of `values` (at scale twelve) under positive `weights`, written at
/// `output_scale`; the weights are first divided by their greatest common divisor.
pub fn weighted_average(
    weights: &[i128],
    values: &[FixedDecimal],
    output_scale: u32,
    unit: UnitRef,
) -> (result: ApplicationResult<DecimalValue>)
    requires
        weights@.len() == values@.len(),
    ensures
        result is Ok <==> weighted_average_defined(
            ints(weights@),
            scaled_values(values@),
            output_scale as nat,
        ),
        result matches Ok(value) ==> value.coefficient == weighted_average_coefficient(
            dot(reduced_weights(ints(weights@)), scaled_values(values@)),
            seq_sum(reduced_weights(ints(weights@))),
            output_scale as nat,
        ) && value.scale == output_scale && value.unit == unit,
        result matches Err(e) ==> e == failure(ApplicationErrorCategory::ValidationFailed),
{
    let ghost ws = ints(weights@);
    let ghost vs = scaled_values(values@);
    let divisor = match common_positive_divisor(weights) {
        Ok(d) => d,
        Err(e) => {
            return Err(e);
        },
    };
    let ghost reduced = reduced_weights(ws);
    proof {
        assert forall|i: int| 0 <= i < reduced.len() implies reduced[i] >= 1 by {
            assert(ws[i] == weights@[i] as int);
            lemma_fundamental_div_mod(ws[i], divisor as int);
            let k = ws[i] / (divisor as int);
            assert(k >= 1) by (nonlinear_arith)
                requires
                    ws[i] == divisor * k,
                    ws[i] > 0,
                    divisor > 0,
            ;
        }
    }
    let mut average = RawWeightedAverage { numerator: 0, denominator: 0 };
    let mut i: usize = 0;
    while i < weights.len()
        invariant
            weights@.len() == values@.len(),
            ws == ints(weights@),
            vs == scaled_values(values@),
            reduced == reduced_weights(ws),
            divisor as int == gcd_of(ws),
            divisor > 0,
            all_positive(ws),
            i <= weights@.len(),
            forall|k: int| 0 <= k < reduced.len() ==> reduced[k] >= 1,
            all_non_negative(vs.subrange(0, i as int)),
            average.numerator == dot(reduced.subrange(0, i as int), vs.subrange(0, i as int)),
            average.denominator == seq_sum(reduced.subrange(0, i as int)),
            average.numerator >= 0,
            average.denominator >= 0,
        decreases weights.len() - i,
    {
        let weight = weights[i] / divisor;
        let value = values[i];
        proof {
            assert(ws[i as int] == weights@[i as int] as int);
            assert(all_positive(ws));
            assert(reduced[i as int] == weight as int);
            assert(vs[i as int] == value.scaled as int);
            let r = reduced.subrange(0, i + 1);
            let v = vs.subrange(0, i + 1);
            assert(r.drop_last() == reduced.subrange(0, i as int));
            assert(v.drop_last() == vs.subrange(0, i as int));
        }
        let ghost before = average;
        match average.add(weight, value) {
            Ok(()) => {},
            Err(e) => {
                proof {
                    if value.scaled >= 0 && all_non_negative(vs) {
                        assert(all_non_negative(reduced));
                        lemma_sums_grow(reduced, vs, i + 1);
                    }
                }
                return Err(e);
            },
        }
        i = i + 1;
    }
    proof {
        assert(reduced.subrange(0, weights@.len() as int) == reduced);
        assert(vs.subrange(0, weights@.len() as int) == vs);
        lemma_sum_at_least_length(reduced);
    }
    rational_weighted_average_to_decimal(average.numerator, average.denominator, output_scale, unit)
}


proof fn lemma_round_scales(a: int, b: int, g: int)
    requires
        a >= 0,
        b > 0,
        g > 0,
    ensures
        round_half_even_nat((a * g) as nat, (b * g) as nat) == round_half_even_nat(a as nat, b as nat),
{
    lemma_fundamental_div_mod(a, b);
    lemma_mod_pos_bound(a, b);
    let q = a / b;
    let r = a % b;
    assert(a * g == (b * g) * q + r * g) by (nonlinear_arith)
        requires
            a == b * q + r,
    ;
    assert(0 <= r * g < b * g) by (nonlinear_arith)
        requires
            0 <= r < b,
            g > 0,
    ;
    assert(b * g > 0) by (nonlinear_arith)
        requires
            b > 0,
            g > 0,
    ;
    assert(a * g >= 0) by (nonlinear_arith)
        requires
            a >= 0,
            g > 0,
    ;
    lemma_fundamental_div_mod_converse(a * g, b * g, q, r * g);
    assert(2 * (r * g) > b * g <==> 2 * r > b) by (nonlinear_arith)
        requires
            g > 0,
    ;
    assert(2 * (r * g) == b * g <==> 2 * r == b) by (nonlinear_arith)
        requires
            g > 0,
    ;
}

proof fn lemma_reduced_sums(weights: Seq<int>, values: Seq<int>, g: int)
    requires
        g > 0,
        weights.len() == values.len(),
        forall|i: int| 0 <= i < weights.len() ==> divides(g, #[trigger] weights[i]),
    ensures
        dot(Seq::new(weights.len(), |i: int| weights[i] / g), values) * g == dot(weights, values),
        seq_sum(Seq::new(weights.len(), |i: int| weights[i] / g)) * g == seq_sum(weights),
    decreases weights.len(),
{
    let reduced = Seq::new(weights.len(), |i: int| weights[i] / g);
    if weights.len() > 0 {
        let w = weights.drop_last();
        let v = values.drop_last();
        lemma_reduced_sums(w, v, g);
        let rw = Seq::new(w.len(), |i: int| w[i] / g);
        assert(reduced.drop_last() =~= rw);
        let last = weights.last();
        assert(divides(g, weights[weights.len() - 1]));
        lemma_fundamental_div_mod(last, g);
        let k = last / g;
        assert(last == g * k);
        let x = dot(rw, v);
        let y = seq_sum(rw);
        assert((x + k * values.last()) * g == x * g + last * values.last()) by (nonlinear_arith)
            requires
                last == g * k,
        ;
        assert((y + k) * g == y * g + last) by (nonlinear_arith)
            requires
                last == g * k,
        ;
    }
}

/// Dividing the weights by their greatest common divisor does not change a weighted
/// average: the result is the half-even rounding of the exact weighted mean.
pub proof fn law_common_divisor_preserves_average(weights: Seq<int>, values: Seq<int>, output_scale: nat)
    requires
        weights.len() == values.len(),
        weights.len() >= 1,
        all_positive(weights),
        all_non_negative(values),
    ensures
        weighted_average_coefficient(
            dot(reduced_weights(weights), values),
            seq_sum(reduced_weights(weights)),
            output_scale,
        ) == weighted_average_coefficient(dot(weights, values), seq_sum(weights), output_scale),
{
    lemma_gcd_of_divides(weights);
    let g = gcd_of(weights) as int;
    lemma_reduced_sums(weights, values, g);
    let reduced = reduced_weights(weights);
    assert(reduced =~= Seq::new(weights.len(), |i: int| weights[i] / g));
    let n = dot(reduced, values);
    let d = seq_sum(reduced);
    assert forall|i: int| 0 <= i < reduced.len() implies reduced[i] >= 1 by {
        lemma_fundamental_div_mod(weights[i], g);
        let k = weights[i] / g;
        assert(k >= 1) by (nonlinear_arith)
            requires
                weights[i] == g * k,
                weights[i] > 0,
                g > 0,
        ;
    }
    lemma_sum_at_least_length(reduced);
    lemma_sums_grow(reduced, values, 0);
    assert(n * g == dot(weights, values));
    assert(d * g == seq_sum(weights));
    if output_scale <= 12 {
        let p = pow10((12 - output_scale) as nat);
        lemma_pow10_positive((12 - output_scale) as nat);
        assert(d * p > 0) by (nonlinear_arith)
            requires
                d >= 1,
                p >= 1,
        ;
        lemma_round_scales(n, d * p, g);
        assert((d * p) * g == (d * g) * p) by (nonlinear_arith);
    } else {
        let p = pow10((output_scale - 12) as nat);
        lemma_pow10_positive((output_scale - 12) as nat);
        assert(n * p >= 0) by (nonlinear_arith)
            requires
                n >= 0,
                p >= 1,
        ;
        lemma_round_scales(n * p, d, g);
        assert((n * p) * g == (n * g) * p) by (nonlinear_arith);
    }
}

/// The weighted average of one constant value, written at scale twelve, is that value.
pub proof fn law_average_of_constant_is_that_constant(weights: Seq<int>, values: Seq<int>, value: int)
    requires
        weights.len() == values.len(),
        weights.len() >= 1,
        all_positive(weights),
        value >= 0,
        forall|i: int| 0 <= i < values.len() ==> values[i] == value,
    ensures
        weighted_average_coefficient(
            dot(reduced_weights(weights), values),
            seq_sum(reduced_weights(weights)),
            12,
        ) == value,
{
    assert(all_non_negative(values));
    law_common_divisor_preserves_average(weights, values, 12);
    lemma_dot_of_constant(weights, values, value);
    lemma_sum_at_least_length_positive(weights);
    let d = seq_sum(weights);
    assert(pow10(0) == 1);
    assert(d * 1 == d);
    assert(round_half_even_nat((d * value) as nat, d as nat) == value) by {
        lemma_fundamental_div_mod_converse(d * value, d, value, 0);
        assert(d * value >= 0) by (nonlinear_arith)
            requires
                d >= 1,
                value >= 0,
        ;
    }
    assert(value * d == d * value) by (nonlinear_arith);
}

proof fn lemma_sum_at_least_length_positive(values: Seq<int>)
    requires
        all_positive(values),
    ensures
        seq_sum(values) >= values.len(),
    decreases values.len(),
{
    if values.len() > 0 {
        lemma_sum_at_least_length_positive(values.drop_last());
    }
}

proof fn lemma_dot_of_constant(weights: Seq<int>, values: Seq<int>, value: int)
    requires
        weights.len() == values.len(),
        forall|i: int| 0 <= i < values.len() ==> values[i] == value,
    ensures
        dot(weights, values) == value * seq_sum(weights),
    decreases weights.len(),
{
    if weights.len() > 0 {
        lemma_dot_of_constant(weights.drop_last(), values.drop_last(), value);
        let s = seq_sum(weights.drop_last());
        let w = weights.last();
        assert(value * s + w * value == value * (s + w)) by (nonlinear_arith);
    }
}

} // verus!
