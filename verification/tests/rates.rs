use dex_treasury::rate::{sat_add, sat_sub, FixedRate, RATE_SCALE};

#[test]
fn rational_with_zero_denominator_is_refused() {
    assert!(FixedRate::checked_from_rational(1, 0).is_none());
    assert_eq!(FixedRate::from_rational_or_zero(1, 0).inner, 0);
}

#[test]
fn rational_rounds_down() {
    assert_eq!(FixedRate::checked_from_rational(1, 2).unwrap().inner, RATE_SCALE / 2);
    assert_eq!(FixedRate::checked_from_rational(1, 3).unwrap().inner, 333_333_333_333_333_333);
    assert_eq!(FixedRate::one().inner, RATE_SCALE);
    assert_eq!(FixedRate::zero().inner, 0);
}

#[test]
fn mul_int_rounds_down() {
    let half = FixedRate::checked_from_rational(1, 2).unwrap();
    assert_eq!(half.saturating_mul_int(7), 3);
    assert_eq!(half.checked_mul_int(7), Some(3));
}

#[test]
fn mul_int_saturates_or_refuses_out_of_range() {
    let huge = FixedRate { inner: u128::MAX };
    assert_eq!(huge.saturating_mul_int(2), u64::MAX);
    assert_eq!(huge.checked_mul_int(2), None);
}

#[test]
fn rate_comparison_is_by_value() {
    let a = FixedRate::checked_from_rational(1, 3).unwrap();
    let b = FixedRate::checked_from_rational(1, 2).unwrap();
    assert!(a.le(b));
    assert!(!b.le(a));
    assert!(a.le(a));
}

#[test]
fn saturating_balance_arithmetic() {
    assert_eq!(sat_add(2, 3), 5);
    assert_eq!(sat_add(u64::MAX, 1), u64::MAX);
    assert_eq!(sat_sub(5, 3), 2);
    assert_eq!(sat_sub(3, 5), 0);
}
