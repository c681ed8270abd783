use ficant_application::decimal::{
    DecimalValue, FixedDecimal, UnitRef, checked_power_of_ten, decimal_to_fixed, fixed_to_decimal,
    round_div_ties_even,
};
use ficant_application::error::ApplicationErrorCategory;
use ficant_application::rational::{
    checked_raw_product, common_positive_divisor, expand_rational_scale,
    positive_greatest_common_divisor, rational_weighted_average_to_decimal, weighted_average,
};

fn unit() -> UnitRef {
    UnitRef::new("u".to_owned(), 1)
}

#[test]
fn powers_of_ten_stop_at_the_i128_range() {
    assert_eq!(checked_power_of_ten(0).unwrap(), 1);
    assert_eq!(checked_power_of_ten(3).unwrap(), 1000);
    assert_eq!(checked_power_of_ten(38).unwrap(), 10_i128.pow(38));
    assert_eq!(checked_power_of_ten(39).unwrap_err().category(), ApplicationErrorCategory::ValidationFailed);
}

#[test]
fn division_rounds_half_to_even() {
    assert_eq!(round_div_ties_even(5, 2).unwrap(), 2);
    assert_eq!(round_div_ties_even(7, 2).unwrap(), 4);
    assert_eq!(round_div_ties_even(-5, 2).unwrap(), -2);
    assert_eq!(round_div_ties_even(-7, 2).unwrap(), -4);
    assert_eq!(round_div_ties_even(10, 3).unwrap(), 3);
    assert_eq!(round_div_ties_even(11, 3).unwrap(), 4);
    assert!(round_div_ties_even(1, 0).is_err());
    assert!(round_div_ties_even(1, -2).is_err());
}

#[test]
fn decimals_convert_exactly_to_fixed_and_back() {
    let value = DecimalValue::new(15, 1, unit()).unwrap();
    let fixed = decimal_to_fixed(&value).unwrap();
    assert_eq!(fixed, FixedDecimal::from_scaled(1_500_000_000_000));
    let back = fixed_to_decimal(fixed, 1, unit()).unwrap();
    assert_eq!((back.coefficient, back.scale), (15, 1));
    let rounded = fixed_to_decimal(FixedDecimal::from_scaled(1_250_000_000_000), 1, unit()).unwrap();
    assert_eq!(rounded.coefficient, 12);
    let finer = fixed_to_decimal(FixedDecimal::from_scaled(7), 14, unit()).unwrap();
    assert_eq!(finer.coefficient, 700);
    assert!(fixed_to_decimal(fixed, 29, unit()).is_err());
    let lossy = DecimalValue::new(123, 14, unit()).unwrap();
    assert!(decimal_to_fixed(&lossy).is_err());
    let exact = DecimalValue::new(1200, 14, unit()).unwrap();
    assert_eq!(decimal_to_fixed(&exact).unwrap().scaled(), 12);
    assert!(DecimalValue::new(1, 29, unit()).is_err());
}

#[test]
fn greatest_common_divisors() {
    assert_eq!(positive_greatest_common_divisor(12, 18), 6);
    assert_eq!(positive_greatest_common_divisor(7, 5), 1);
    assert_eq!(common_positive_divisor(&[6, 9, 12]).unwrap(), 3);
    assert!(common_positive_divisor(&[]).is_err());
    assert!(common_positive_divisor(&[4, 0]).is_err());
    assert_eq!(checked_raw_product(6, 7).unwrap(), 42);
    assert!(checked_raw_product(i128::MAX, 2).is_err());
    assert!(checked_raw_product(-1, 2).is_err());
}

#[test]
fn weighted_averages_are_exact_ratios() {
    let values = [FixedDecimal::from_scaled(2_000_000_000_000), FixedDecimal::from_scaled(4_000_000_000_000)];
    let average = weighted_average(&[1, 3], &values, 2, unit()).unwrap();
    assert_eq!((average.coefficient, average.scale), (350, 2));
    let constant = [FixedDecimal::from_scaled(5_000_000_000_000); 3];
    assert_eq!(weighted_average(&[2, 7, 11], &constant, 0, unit()).unwrap().coefficient, 5);
    assert!(weighted_average(&[0, 0], &values, 2, unit()).is_err());
    assert_eq!(rational_weighted_average_to_decimal(1_000_000_000_000, 3, 4, unit()).unwrap().coefficient, 3333);
    assert!(rational_weighted_average_to_decimal(1, 0, 4, unit()).is_err());
    assert_eq!(expand_rational_scale(1, 8, 2).unwrap(), 12);
    assert_eq!(expand_rational_scale(3, 8, 2).unwrap(), 38);
}
