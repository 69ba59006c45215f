use prediction_market::fixed::{
    fx_add, fx_div, fx_exp, fx_ln, fx_mul, fx_ratio, fx_sub, MathError, FX_MAX, FX_SCALE,
};

#[test]
fn add_and_sub_detect_the_representation_limit() {
    assert_eq!(fx_add(FX_SCALE, 2 * FX_SCALE), Ok(3 * FX_SCALE));
    assert_eq!(fx_add(FX_MAX, 1), Err(MathError::Overflow));
    assert_eq!(fx_sub(-FX_MAX, 1), Err(MathError::Underflow));
    assert_eq!(fx_sub(FX_SCALE, 3 * FX_SCALE), Ok(-2 * FX_SCALE));
}

#[test]
fn mul_rounds_half_away_from_zero() {
    assert_eq!(fx_mul(1_500_000, 2_000_000), Ok(3_000_000));
    assert_eq!(fx_mul(1, 500_000), Ok(1));
    assert_eq!(fx_mul(-1, 500_000), Ok(-1));
    assert_eq!(fx_mul(1, 499_999), Ok(0));
    assert_eq!(fx_mul(FX_MAX, 2 * FX_SCALE), Err(MathError::Overflow));
    assert_eq!(fx_mul(-FX_MAX, 2 * FX_SCALE), Err(MathError::Underflow));
}

#[test]
fn div_rounds_and_rejects_zero() {
    assert_eq!(fx_div(FX_SCALE, 3 * FX_SCALE), Ok(333_333));
    assert_eq!(fx_div(2 * FX_SCALE, 3 * FX_SCALE), Ok(666_667));
    assert_eq!(fx_div(-2 * FX_SCALE, 3 * FX_SCALE), Ok(-666_667));
    assert_eq!(fx_div(2 * FX_SCALE, -3 * FX_SCALE), Ok(-666_667));
    assert_eq!(fx_div(FX_SCALE, 0), Err(MathError::DivisionByZero));
}

#[test]
fn ratio_of_integers() {
    assert_eq!(fx_ratio(1, 4), Ok(250_000));
    assert_eq!(fx_ratio(7, 0), Err(MathError::DivisionByZero));
    assert_eq!(fx_ratio(u64::MAX, 1), Err(MathError::Overflow));
}

#[test]
fn exp_by_taylor_series() {
    assert_eq!(fx_exp(0), Ok(FX_SCALE));
    assert_eq!(fx_exp(FX_SCALE), Ok(2_718_282));
    assert_eq!(fx_exp(-FX_SCALE), Ok(367_880));
    assert_eq!(fx_exp(FX_MAX), Err(MathError::Overflow));
}

#[test]
fn ln_by_newton_refinement() {
    assert_eq!(fx_ln(FX_SCALE), Ok(0));
    assert_eq!(fx_ln(2 * FX_SCALE), Ok(693_148));
    assert_eq!(fx_ln(2_718_282), Ok(FX_SCALE));
    assert_eq!(fx_ln(0), Err(MathError::Diverged));
    assert_eq!(fx_ln(-5), Err(MathError::Diverged));
}

#[test]
fn exp_of_ln_round_trips_to_working_precision() {
    for x in [500_000i128, FX_SCALE, 2 * FX_SCALE, 3_500_000, 10 * FX_SCALE] {
        let l = fx_ln(x).unwrap();
        let back = fx_exp(l).unwrap();
        assert!((back - x).abs() <= 10 + x / 100_000, "x = {x}, back = {back}");
    }
}

