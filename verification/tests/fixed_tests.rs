use starscape::fixed::{
    acos_fix, angle_mod, cos_fix, div_trunc, isqrt, sin_fix, HALF_PI_FIX, PI_FIX, SCALE,
    TWO_PI_FIX,
};

#[test]
fn div_trunc_rounds_toward_zero() {
    assert_eq!(div_trunc(7, 2), 3);
    assert_eq!(div_trunc(-7, 2), -3);
    assert_eq!(div_trunc(0, 5), 0);
    assert_eq!(div_trunc(-1, SCALE), 0);
}

#[test]
fn isqrt_exact() {
    assert_eq!(isqrt(0), 0);
    assert_eq!(isqrt(1), 1);
    assert_eq!(isqrt(24), 4);
    assert_eq!(isqrt(25), 5);
    assert_eq!(isqrt(u64::MAX), 0xffff_ffff);
}

#[test]
fn angle_mod_wraps_into_one_turn() {
    assert_eq!(angle_mod(0), 0);
    assert_eq!(angle_mod(TWO_PI_FIX), 0);
    assert_eq!(angle_mod(-1), TWO_PI_FIX - 1);
    assert_eq!(angle_mod(3 * TWO_PI_FIX + 17), 17);
}

#[test]
fn sin_cos_special_values() {
    assert_eq!(sin_fix(0), 0);
    assert_eq!(cos_fix(0), SCALE);
    assert_eq!(sin_fix(HALF_PI_FIX), SCALE);
    assert_eq!(sin_fix(PI_FIX), 0);
    assert_eq!(sin_fix(PI_FIX + HALF_PI_FIX), -SCALE);
    assert_eq!(cos_fix(PI_FIX), -SCALE);
    // a full turn wraps back
    assert_eq!(sin_fix(TWO_PI_FIX), 0);
}

#[test]
fn sin_approximation_accuracy() {
    // sin(pi/6) = 0.5, so the raw result must be near SCALE / 2
    let r = sin_fix(HALF_PI_FIX / 3);
    assert!((r - SCALE / 2).abs() <= 80, "sin(pi/6) raw = {r}");
    // sin(pi/4) = sqrt(2)/2 ~ 0.70711, raw ~ 46341
    let r = sin_fix(HALF_PI_FIX / 2);
    assert!((r - 46341).abs() <= 80, "sin(pi/4) raw = {r}");
}

#[test]
fn acos_range_and_special_values() {
    assert_eq!(acos_fix(SCALE), 0);
    assert_eq!(acos_fix(-SCALE), PI_FIX);
    let r = acos_fix(0);
    assert!((r - HALF_PI_FIX).abs() <= 16, "acos(0) raw = {r}");
    // the argument is clamped, so out-of-range dot products are safe
    assert_eq!(acos_fix(10 * SCALE), 0);
    assert_eq!(acos_fix(-10 * SCALE), PI_FIX);
}
