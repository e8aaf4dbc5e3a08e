use sun_times::fixed::{div_floor, div_round, isqrt, mul_wide, rem_floor, SCALE};

#[test]
fn scale_is_a_billion() {
    assert_eq!(SCALE, 1_000_000_000);
}

#[test]
fn rounded_division_rounds_halves_away_from_zero() {
    assert_eq!(div_round(7, 2), 4);
    assert_eq!(div_round(-7, 2), -4);
    assert_eq!(div_round(5, 2), 3);
    assert_eq!(div_round(-5, 2), -3);
    assert_eq!(div_round(1, 3), 0);
    assert_eq!(div_round(2, 3), 1);
    assert_eq!(div_round(-2, 3), -1);
    assert_eq!(div_round(-1, 3), 0);
    assert_eq!(div_round(0, 5), 0);
    assert_eq!(div_round(6, 3), 2);
    assert_eq!(
        div_round(1_000_000_000_000_000_000_000_500_000_000, 1_000_000_000),
        1_000_000_000_000_000_000_001
    );
}

#[test]
fn floor_division_and_its_remainder() {
    assert_eq!(div_floor(7, 2), 3);
    assert_eq!(div_floor(-7, 2), -4);
    assert_eq!(div_floor(-8, 2), -4);
    assert_eq!(div_floor(0, 9), 0);
    assert_eq!(div_floor(-1, 360), -1);
    assert_eq!(rem_floor(7, 2), 1);
    assert_eq!(rem_floor(-7, 2), 1);
    assert_eq!(rem_floor(-8, 2), 0);
    assert_eq!(rem_floor(-1, 360), 359);
    assert_eq!(rem_floor(720, 360), 0);
    for a in -50i128..50 {
        for m in 1i128..8 {
            assert_eq!(div_floor(a, m), a.div_euclid(m));
            assert_eq!(rem_floor(a, m), a.rem_euclid(m));
            assert_eq!(div_floor(a, m) * m + rem_floor(a, m), a);
        }
    }
    assert_eq!(rem_floor(i128::MIN + 1, 360), (i128::MIN + 1).rem_euclid(360));
    assert_eq!(div_floor(i128::MAX, 1), i128::MAX);
}

#[test]
fn integer_square_roots() {
    assert_eq!(isqrt(0), 0);
    assert_eq!(isqrt(1), 1);
    assert_eq!(isqrt(2), 1);
    assert_eq!(isqrt(3), 1);
    assert_eq!(isqrt(4), 2);
    assert_eq!(isqrt(15), 3);
    assert_eq!(isqrt(16), 4);
    assert_eq!(isqrt(17), 4);
    assert_eq!(isqrt(1_000_000_000_000_000_000_000_000_000_000_000_000), 1_000_000_000_000_000_000);
    assert_eq!(isqrt(999_999_999_999_999_999_999_999_999_999_999_999), 999_999_999_999_999_999);
    assert_eq!(isqrt(u128::MAX), u64::MAX);
    for n in 0u128..2000 {
        let root = isqrt(n) as u128;
        assert!(root * root <= n && n < (root + 1) * (root + 1));
    }
}

#[test]
fn wide_products() {
    assert_eq!(mul_wide(3, -4), -12);
    assert_eq!(mul_wide(i64::MAX, i64::MAX), i64::MAX as i128 * i64::MAX as i128);
    assert_eq!(mul_wide(i64::MIN, i64::MIN), i64::MIN as i128 * i64::MIN as i128);
    assert_eq!(mul_wide(i64::MIN, i64::MAX), i64::MIN as i128 * i64::MAX as i128);
    assert_eq!(mul_wide(0, i64::MIN), 0);
}
