use std::cmp::Ordering;
use trimmean::decimal::Rank;
use trimmean::fixed::{ten_to, MAX_COEFFICIENT, MAX_SCALE, ONE_IN_UNITS};
use trimmean::mean::{mean_of, sum_of};
use trimmean::order::ordering_of;
use trimmean::trim::count_to_trim;
use trimmean::trimmean::render;
use trimmean::validate::{check_range, natural_text, validate};
use trimmean::value::coerce;
use trimmean::{Fixed, InitError, ProcessError, Value};

fn fixed(mantissa: i128, scale: u32) -> Fixed {
    Fixed { mantissa, scale }
}

#[test]
fn rank_variants_are_distinct() {
    assert_ne!(Rank::Below, Rank::Level);
    assert_ne!(Rank::Level, Rank::Above);
    assert_ne!(Rank::Below, Rank::Above);
}

#[test]
fn validity_follows_the_limits() {
    assert!(fixed(0, 0).is_valid());
    assert!(fixed(MAX_COEFFICIENT, MAX_SCALE).is_valid());
    assert!(fixed(-MAX_COEFFICIENT, 0).is_valid());
    assert!(!fixed(MAX_COEFFICIENT + 1, 0).is_valid());
    assert!(!fixed(-MAX_COEFFICIENT - 1, 0).is_valid());
    assert!(!fixed(1, MAX_SCALE + 1).is_valid());
    assert_eq!(MAX_COEFFICIENT, (1i128 << 96) - 1);
}

#[test]
fn whole_numbers_have_no_decimal_places() {
    assert_eq!(Fixed::from_i64(42), fixed(42, 0));
    assert_eq!(Fixed::from_i64(-7), fixed(-7, 0));
    assert_eq!(Fixed::from_i64(i64::MIN), fixed(i64::MIN as i128, 0));
    assert_eq!(Fixed::from_i64(i64::MAX), fixed(i64::MAX as i128, 0));
}

#[test]
fn powers_of_ten() {
    assert_eq!(ten_to(0), 1);
    assert_eq!(ten_to(1), 10);
    assert_eq!(ten_to(9), 1_000_000_000);
    assert_eq!(ten_to(28), ONE_IN_UNITS);
    assert_eq!(ONE_IN_UNITS, 10u128.pow(28));
}

#[test]
fn trim_count_is_half_the_product_rounded_down() {
    assert_eq!(count_to_trim(10, &fixed(5, 1)), 2);
    assert_eq!(count_to_trim(10, &fixed(3, 1)), 1);
    assert_eq!(count_to_trim(10, &fixed(7, 1)), 3);
    assert_eq!(count_to_trim(10, &fixed(0, 0)), 0);
    assert_eq!(count_to_trim(10, &fixed(0, 5)), 0);
    assert_eq!(count_to_trim(0, &fixed(9, 1)), 0);
    assert_eq!(count_to_trim(1, &fixed(9999, 4)), 0);
    assert_eq!(count_to_trim(2, &fixed(9999, 4)), 0);
    assert_eq!(count_to_trim(3, &fixed(9999, 4)), 1);
    assert_eq!(count_to_trim(10, &fixed(19, 2)), 0);
    assert_eq!(count_to_trim(10, &fixed(2, 1)), 1);
    assert_eq!(count_to_trim(10, &fixed(20, 2)), 1);
    assert_eq!(count_to_trim(1000, &fixed(25, 2)), 125);
    assert_eq!(count_to_trim(1001, &fixed(25, 2)), 125);
}

#[test]
fn trim_count_is_exact_at_full_precision() {
    let sevenths = fixed(2857142857142857142857142857, 28);
    assert_eq!(count_to_trim(7, &sevenths), 0);
    let almost_one = fixed(9999999999999999999999999999, 28);
    assert_eq!(count_to_trim(2, &almost_one), 0);
    assert_eq!(count_to_trim(usize::MAX, &almost_one), usize::MAX / 2);
    assert_eq!(count_to_trim(usize::MAX, &fixed(5, 1)), usize::MAX / 4);
    assert_eq!(count_to_trim(1 << 40, &fixed(5000000000000000000000000000, 28)), 1 << 38);
    let third = fixed(3333333333333333333333333333, 28);
    assert_eq!(count_to_trim(6, &third), 0);
    assert_eq!(count_to_trim(7, &third), 1);
    assert_eq!(count_to_trim(6_000_000, &third), 999_999);
}

#[test]
fn trim_count_leaves_at_least_one() {
    let almost_one = fixed(9999999999999999999999999999, 28);
    for n in 1..200usize {
        let trim = count_to_trim(n, &almost_one);
        assert!(2 * trim < n);
        assert_eq!(trim, (n - 1) / 2);
    }
}

#[test]
fn coercion_by_kind() {
    assert_eq!(coerce(&Value::Int(Some(12))), Some(fixed(12, 0)));
    assert_eq!(coerce(&Value::Int(Some(-3))), Some(fixed(-3, 0)));
    assert_eq!(coerce(&Value::Int(None)), None);
    assert_eq!(coerce(&Value::Real(Some(fixed(1001, 3)))), Some(fixed(1001, 3)));
    assert_eq!(coerce(&Value::Real(None)), None);
    assert_eq!(coerce(&Value::Real(Some(fixed(1, 29)))), None);
    assert_eq!(coerce(&Value::Decimal(Some("1.50".to_string()))), Some(fixed(150, 2)));
    assert_eq!(coerce(&Value::Decimal(Some("-0.001".to_string()))), Some(fixed(-1, 3)));
    assert_eq!(coerce(&Value::Decimal(Some("12".to_string()))), Some(fixed(12, 0)));
    assert_eq!(coerce(&Value::Decimal(Some("1e3".to_string()))), None);
    assert_eq!(coerce(&Value::Decimal(Some("".to_string()))), None);
    assert_eq!(coerce(&Value::Decimal(Some("0.00000000000000000000000000001".to_string()))), None);
    assert_eq!(coerce(&Value::Decimal(None)), None);
    assert_eq!(coerce(&Value::Text(Some("12".to_string()))), None);
    assert_eq!(coerce(&Value::Text(None)), None);
}

#[test]
fn range_check_by_value() {
    assert_eq!(check_range(None), Err(InitError::Conversion));
    assert_eq!(check_range(Some(fixed(0, 0))), Ok(fixed(0, 0)));
    assert_eq!(check_range(Some(fixed(0, 7))), Ok(fixed(0, 7)));
    assert_eq!(check_range(Some(fixed(5, 1))), Ok(fixed(5, 1)));
    assert_eq!(check_range(Some(fixed(999, 3))), Ok(fixed(999, 3)));
    assert_eq!(check_range(Some(fixed(1, 0))), Err(InitError::Range));
    assert_eq!(check_range(Some(fixed(1000, 3))), Err(InitError::Range));
    assert_eq!(check_range(Some(fixed(-1, 28))), Err(InitError::Range));
    assert_eq!(check_range(Some(fixed(MAX_COEFFICIENT, 28))), Err(InitError::Range));
    assert_eq!(check_range(Some(fixed(MAX_COEFFICIENT, 0))), Err(InitError::Range));
}

#[test]
fn validation_gives_each_error() {
    let good = Value::Decimal(Some("0.2".to_string()));
    assert_eq!(validate(&[]), Err(InitError::Arity(0)));
    assert_eq!(validate(&[good.clone()]), Err(InitError::Arity(1)));
    assert_eq!(validate(&[good.clone(), good.clone(), good.clone()]), Err(InitError::Arity(3)));
    assert_eq!(validate(&[Value::Text(None), good.clone()]), Err(InitError::FirstKind));
    assert_eq!(validate(&[Value::Int(None), Value::Int(Some(0))]), Err(InitError::SecondKind));
    assert_eq!(validate(&[Value::Int(None), Value::Text(None)]), Err(InitError::SecondKind));
    assert_eq!(validate(&[Value::Int(None), Value::Decimal(None)]), Err(InitError::Conversion));
    assert_eq!(validate(&[Value::Int(None), Value::Decimal(Some("2".to_string()))]), Err(InitError::Range));
    assert_eq!(validate(&[Value::Int(None), good]), Ok(fixed(2, 1)));
}

#[test]
fn messages_are_verbatim() {
    assert_eq!(InitError::Arity(1).message(), "Expected 2 args, but got 1");
    assert_eq!(InitError::Arity(0).message(), "Expected 2 args, but got 0");
    assert_eq!(InitError::Arity(10).message(), "Expected 2 args, but got 10");
    assert_eq!(InitError::Arity(4096).message(), "Expected 2 args, but got 4096");
    assert_eq!(InitError::FirstKind.message(), "1st arg must be real, decimal or int");
    assert_eq!(InitError::SecondKind.message(), "2nd arg must be real or decimal");
    assert_eq!(InitError::Conversion.message(), "Failed to convert 2nd arg into decimal");
    assert_eq!(InitError::Range.message(), "2nd arg out of range [0.0, 1.0)");
}

#[test]
fn numerals() {
    assert_eq!(natural_text(0), "0");
    assert_eq!(natural_text(7), "7");
    assert_eq!(natural_text(10), "10");
    assert_eq!(natural_text(1234567890), "1234567890");
    assert_eq!(natural_text(usize::MAX), usize::MAX.to_string());
}

#[test]
fn order_is_by_number_then_by_decimal_places() {
    assert_eq!(ordering_of(&fixed(1, 0), &fixed(2, 0)), Ordering::Less);
    assert_eq!(ordering_of(&fixed(2, 0), &fixed(1, 0)), Ordering::Greater);
    assert_eq!(ordering_of(&fixed(15, 1), &fixed(2, 0)), Ordering::Less);
    assert_eq!(ordering_of(&fixed(2, 0), &fixed(15, 1)), Ordering::Greater);
    assert_eq!(ordering_of(&fixed(-15, 1), &fixed(-2, 0)), Ordering::Greater);
    assert_eq!(ordering_of(&fixed(-1, 28), &fixed(0, 0)), Ordering::Less);
    assert_eq!(ordering_of(&fixed(10, 1), &fixed(1, 0)), Ordering::Greater);
    assert_eq!(ordering_of(&fixed(1, 0), &fixed(100, 2)), Ordering::Less);
    assert_eq!(ordering_of(&fixed(0, 3), &fixed(0, 0)), Ordering::Greater);
    assert_eq!(ordering_of(&fixed(100, 2), &fixed(100, 2)), Ordering::Equal);
    assert_eq!(ordering_of(&fixed(MAX_COEFFICIENT, 0), &fixed(MAX_COEFFICIENT, 28)), Ordering::Greater);
    assert_eq!(ordering_of(&fixed(-MAX_COEFFICIENT, 0), &fixed(MAX_COEFFICIENT, 28)), Ordering::Less);
}

#[test]
fn sums_run_from_left_to_right() {
    let values = vec![fixed(1, 0), fixed(25, 1), fixed(-50, 2), fixed(4, 0)];
    assert_eq!(sum_of(&values, 0, 0), Some(fixed(0, 0)));
    assert_eq!(sum_of(&values, 2, 2), Some(fixed(0, 0)));
    assert_eq!(sum_of(&values, 0, 1), Some(fixed(1, 0)));
    assert_eq!(sum_of(&values, 0, 2), Some(fixed(35, 1)));
    assert_eq!(sum_of(&values, 1, 3), Some(fixed(200, 2)));
    assert_eq!(sum_of(&values, 0, 4), Some(fixed(700, 2)));
    let large = vec![fixed(MAX_COEFFICIENT, 0), fixed(1, 0), fixed(-1, 0)];
    assert_eq!(sum_of(&large, 0, 1), Some(fixed(MAX_COEFFICIENT, 0)));
    assert_eq!(sum_of(&large, 0, 2), None);
    assert_eq!(sum_of(&large, 0, 3), None);
    assert_eq!(sum_of(&large, 1, 3), Some(fixed(0, 0)));
}

fn shown(mean: Option<Fixed>) -> Option<String> {
    match mean {
        Some(m) => render(Some(m)).unwrap(),
        None => None,
    }
}

#[test]
fn means_divide_by_the_count() {
    let values = vec![fixed(1, 0), fixed(2, 0), fixed(4, 0), fixed(10, 0)];
    assert_eq!(shown(mean_of(&values, 0, 2)), Some("1.5".to_string()));
    assert_eq!(shown(mean_of(&values, 0, 4)), Some("4.25".to_string()));
    assert_eq!(shown(mean_of(&values, 1, 3)), Some("3".to_string()));
    assert_eq!(shown(mean_of(&values, 3, 4)), Some("10".to_string()));
    assert_eq!(mean_of(&values, 1, 3), Some(fixed(3, 0)));
    assert_eq!(mean_of(&values, 2, 2), None);
    let thirds = vec![fixed(1, 0), fixed(0, 0), fixed(0, 0)];
    assert_eq!(mean_of(&thirds, 0, 3), Some(fixed(3333333333333333333333333333, 28)));
    let two_thirds = vec![fixed(2, 0), fixed(0, 0), fixed(0, 0)];
    assert_eq!(mean_of(&two_thirds, 0, 3), Some(fixed(6666666666666666666666666667, 28)));
    let overflowing = vec![fixed(MAX_COEFFICIENT, 0), fixed(MAX_COEFFICIENT, 0)];
    assert_eq!(mean_of(&overflowing, 0, 2), None);
}

#[test]
fn rendering_strips_trailing_zeros() {
    assert_eq!(render(None), Err(ProcessError));
    assert_eq!(render(Some(fixed(3000, 2))), Ok(Some("30".to_string())));
    assert_eq!(render(Some(fixed(3003, 2))), Ok(Some("30.03".to_string())));
    assert_eq!(render(Some(fixed(3030, 2))), Ok(Some("30.3".to_string())));
    assert_eq!(render(Some(fixed(-1500, 3))), Ok(Some("-1.5".to_string())));
    assert_eq!(render(Some(fixed(0, 4))), Ok(Some("0".to_string())));
    assert_eq!(render(Some(fixed(5, 3))), Ok(Some("0.005".to_string())));
    assert_eq!(render(Some(fixed(100, 0))), Ok(Some("100".to_string())));
    assert_eq!(render(Some(fixed(-25, 2))), Ok(Some("-0.25".to_string())));
}
