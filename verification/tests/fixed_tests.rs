use gravity_tracer::fixed::{isqrt, Fixed, FRAC_BITS, ONE_RAW};
use gravity_tracer::vector::Vec2;

fn raw(v: i64) -> Fixed {
    Fixed::from_raw(v)
}

#[test]
fn one_is_two_to_the_fractional_bits() {
    assert_eq!(ONE_RAW, 1i64 << FRAC_BITS);
    assert_eq!(Fixed::one().raw, ONE_RAW);
    assert_eq!(Fixed::zero().raw, 0);
}

#[test]
fn sums_and_differences_are_exact() {
    assert_eq!(raw(5).checked_add(raw(-7)), Some(raw(-2)));
    assert_eq!(raw(5).checked_sub(raw(-7)), Some(raw(12)));
    assert_eq!(raw(-9).checked_neg(), Some(raw(9)));
}

#[test]
fn sums_that_do_not_fit_are_refused() {
    assert_eq!(raw(i64::MAX).checked_add(raw(1)), None);
    assert_eq!(raw(i64::MIN).checked_sub(raw(1)), None);
    assert_eq!(raw(i64::MIN).checked_neg(), None);
    assert_eq!(raw(i64::MAX).checked_add(raw(0)), Some(raw(i64::MAX)));
}

#[test]
fn products_round_toward_zero() {
    let half = raw(ONE_RAW / 2);
    assert_eq!(raw(3).checked_mul(half), Some(raw(1)));
    assert_eq!(raw(-3).checked_mul(half), Some(raw(-1)));
    assert_eq!(raw(3).checked_mul(raw(-ONE_RAW / 2)), Some(raw(-1)));
    assert_eq!(raw(-3).checked_mul(raw(-ONE_RAW / 2)), Some(raw(1)));
    assert_eq!(raw(6 * ONE_RAW).checked_mul(raw(7 * ONE_RAW)), Some(raw(42 * ONE_RAW)));
}

#[test]
fn products_that_do_not_fit_are_refused() {
    let big = raw(4_000_000 * ONE_RAW);
    assert_eq!(big.checked_mul(big), None);
    assert_eq!(raw(i64::MIN).checked_mul(raw(-ONE_RAW)), None);
    assert_eq!(raw(i64::MIN).checked_mul(raw(ONE_RAW)), Some(raw(i64::MIN)));
}

#[test]
fn quotients_round_toward_zero() {
    let three = raw(3 * ONE_RAW);
    assert_eq!(raw(ONE_RAW).checked_div(three), Some(raw(ONE_RAW / 3)));
    assert_eq!(raw(-ONE_RAW).checked_div(three), Some(raw(-(ONE_RAW / 3))));
    assert_eq!(raw(ONE_RAW).checked_div(raw(-3 * ONE_RAW)), Some(raw(-(ONE_RAW / 3))));
    assert_eq!(raw(-ONE_RAW).checked_div(raw(-3 * ONE_RAW)), Some(raw(ONE_RAW / 3)));
    assert_eq!(raw(42 * ONE_RAW).checked_div(raw(7 * ONE_RAW)), Some(raw(6 * ONE_RAW)));
}

#[test]
fn quotients_by_zero_or_out_of_range_are_refused() {
    assert_eq!(raw(ONE_RAW).checked_div(raw(0)), None);
    assert_eq!(raw(0).checked_div(raw(0)), None);
    assert_eq!(raw(4_000_000 * ONE_RAW).checked_div(raw(1)), None);
    assert_eq!(raw(i64::MIN).checked_div(raw(-ONE_RAW)), None);
}

#[test]
fn ratios_and_fractions_agree() {
    assert_eq!(Fixed::from_ratio(1, 2), Some(raw(ONE_RAW / 2)));
    assert_eq!(Fixed::from_ratio(-1, 3), Some(raw(-(ONE_RAW / 3))));
    assert_eq!(Fixed::from_ratio(1, -3), Some(raw(-(ONE_RAW / 3))));
    assert_eq!(Fixed::from_ratio(1, 0), None);
    assert_eq!(Fixed::from_ratio(i64::MAX, 1), None);
    assert_eq!(Fixed::fraction(1, 2), raw(ONE_RAW / 2));
    assert_eq!(Fixed::fraction(-1, 3), raw(-(ONE_RAW / 3)));
    assert_eq!(Fixed::fraction(5, 100_000), raw(54_975_581));
    assert_eq!(Fixed::fraction(123, 10_000), raw(13_523_993_021));
    assert_eq!(Fixed::fraction(7, 0), raw(0));
    assert_eq!(Fixed::fraction(i16::MIN, 1), raw(-32768 * ONE_RAW));
}

#[test]
fn narrowing_keeps_what_fits() {
    assert_eq!(Fixed::from_wide(i64::MAX as i128), Some(raw(i64::MAX)));
    assert_eq!(Fixed::from_wide(i64::MIN as i128), Some(raw(i64::MIN)));
    assert_eq!(Fixed::from_wide(i64::MAX as i128 + 1), None);
    assert_eq!(Fixed::from_wide(i64::MIN as i128 - 1), None);
}

#[test]
fn integer_square_roots_round_down() {
    assert_eq!(isqrt(0), 0);
    assert_eq!(isqrt(1), 1);
    assert_eq!(isqrt(2), 1);
    assert_eq!(isqrt(3), 1);
    assert_eq!(isqrt(4), 2);
    assert_eq!(isqrt(24), 4);
    assert_eq!(isqrt(25), 5);
    assert_eq!(isqrt(1 << 80), 1 << 40);
    assert_eq!(isqrt((1 << 80) - 1), (1 << 40) - 1);
    assert_eq!(isqrt(u128::MAX), u64::MAX);
}

#[test]
fn vectors_add_and_scale_by_component() {
    let a = Vec2::new(raw(3 * ONE_RAW), raw(-4 * ONE_RAW));
    let b = Vec2::new(raw(ONE_RAW), raw(ONE_RAW));
    assert_eq!(a.checked_add(b), Some(Vec2::new(raw(4 * ONE_RAW), raw(-3 * ONE_RAW))));
    assert_eq!(a.checked_sub(b), Some(Vec2::new(raw(2 * ONE_RAW), raw(-5 * ONE_RAW))));
    assert_eq!(a.checked_neg(), Some(Vec2::new(raw(-3 * ONE_RAW), raw(4 * ONE_RAW))));
    assert_eq!(
        a.checked_scale(raw(ONE_RAW / 2)),
        Some(Vec2::new(raw(3 * ONE_RAW / 2), raw(-2 * ONE_RAW)))
    );
    assert_eq!(
        a.checked_shrink(raw(2 * ONE_RAW)),
        Some(Vec2::new(raw(3 * ONE_RAW / 2), raw(-2 * ONE_RAW)))
    );
    assert_eq!(a.checked_shrink(raw(0)), None);
    assert_eq!(Vec2::zero(), Vec2::new(raw(0), raw(0)));
}

#[test]
fn vector_operations_that_do_not_fit_are_refused() {
    let a = Vec2::new(raw(i64::MAX), raw(0));
    let b = Vec2::new(raw(1), raw(0));
    assert_eq!(a.checked_add(b), None);
    assert_eq!(Vec2::new(raw(0), raw(i64::MIN)).checked_neg(), None);
    assert_eq!(Vec2::new(raw(i64::MIN), raw(0)).checked_sub(b), None);
    assert_eq!(a.checked_scale(raw(2 * ONE_RAW)), None);
}

#[test]
fn norms_round_down() {
    let a = Vec2::new(raw(3 * ONE_RAW), raw(-4 * ONE_RAW));
    assert_eq!(a.checked_norm(), Some(raw(5 * ONE_RAW)));
    assert_eq!(Vec2::new(raw(1), raw(1)).checked_norm(), Some(raw(1)));
    assert_eq!(Vec2::zero().checked_norm(), Some(raw(0)));
    assert_eq!(Vec2::new(raw(i64::MIN), raw(i64::MIN)).checked_norm(), None);
    assert_eq!(Vec2::new(raw(i64::MAX), raw(0)).checked_norm(), Some(raw(i64::MAX)));
}
