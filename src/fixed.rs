//! Decimal fixed-point arithmetic with six fractional digits.
//!
//! A value `v` is held as the integer `v * 10^6` in an `i128` whose magnitude
//! never exceeds `FX_MAX`. Every operation rounds half away from zero and
//! reports a typed failure instead of wrapping.
use vstd::prelude::*;

verus! {

/// Scale of the representation: one unit is `FX_SCALE` raw steps.
pub const FX_SCALE: i128 = 1_000_000;

/// Largest magnitude a raw fixed-point value may take.
pub const FX_MAX: i128 = 1_000_000_000_000_000_000;

/// Number of Taylor terms after the constant one used by `fx_exp`.
pub const EXP_TERMS: i128 = 10;

/// Number of Newton refinements used by `fx_ln`.
pub const LN_ITERATIONS: u32 = 10;

#[derive(Clone, Copy, Debug, PartialEq, Eq, Structural)]
pub enum MathError {
    Overflow,
    Underflow,
    DivisionByZero,
    Diverged,
}

pub open spec fn fits(v: int) -> bool {
    -FX_MAX <= v <= FX_MAX
}

/// `n / d` rounded to the nearest integer, halves away from zero (`d > 0`).
pub open spec fn round_div(n: int, d: int) -> int
    recommends
        d > 0,
{
    if n >= 0 {
        (2 * n + d) / (2 * d)
    } else {
        -((2 * (-n) + d) / (2 * d))
    }
}

/// Accepts a value that fits the representation, or names the side it left by.
pub open spec fn checked(v: int) -> Result<int, MathError> {
    if v > FX_MAX {
        Err(MathError::Overflow)
    } else if v < -FX_MAX {
        Err(MathError::Underflow)
    } else {
        Ok(v)
    }
}

pub open spec fn add_spec(a: int, b: int) -> Result<int, MathError> {
    checked(a + b)
}

pub open spec fn sub_spec(a: int, b: int) -> Result<int, MathError> {
    checked(a - b)
}

pub open spec fn mul_spec(a: int, b: int) -> Result<int, MathError> {
    checked(round_div(a * b, FX_SCALE as int))
}

pub open spec fn div_spec(a: int, b: int) -> Result<int, MathError> {
    if b == 0 {
        Err(MathError::DivisionByZero)
    } else if b > 0 {
        checked(round_div(a * FX_SCALE, b))
    } else {
        checked(round_div(-a * FX_SCALE, -b))
    }
}

/// The fixed-point value of the ratio `n / d` of two integers.
pub open spec fn ratio_spec(n: int, d: int) -> Result<int, MathError> {
    if d == 0 {
        Err(MathError::DivisionByZero)
    } else {
        checked(round_div(n * FX_SCALE, d))
    }
}

/// Partial Taylor series of `exp(x)`: the `k`-th term and the sum of terms `0..=k`,
/// each term obtained from the previous one as `round(round(t * x) / k)`.
pub open spec fn exp_series(x: int, k: nat) -> Result<(int, int), MathError>
    decreases k,
{
    if k == 0 {
        Ok((FX_SCALE as int, FX_SCALE as int))
    } else {
        match exp_series(x, (k - 1) as nat) {
            Err(e) => Err(e),
            Ok((t, s)) => match mul_spec(t, x) {
                Err(e) => Err(e),
                Ok(tx) => {
                    let t2 = round_div(tx, k as int);
                    match add_spec(s, t2) {
                        Err(e) => Err(e),
                        Ok(s2) => Ok((t2, s2)),
                    }
                },
            },
        }
    }
}

/// `exp(x)` by the Taylor expansion of orders zero to ten.
pub open spec fn exp_spec(x: int) -> Result<int, MathError> {
    match exp_series(x, EXP_TERMS as nat) {
        Err(e) => Err(e),
        Ok((_, s)) => Ok(s),
    }
}

/// One Newton step towards `ln(x)`: `y - 1 + x / exp(y)`.
pub open spec fn newton_step(x: int, y: int) -> Result<int, MathError> {
    match exp_spec(y) {
        Err(e) => Err(e),
        Ok(ey) => match sub_spec(y, FX_SCALE as int) {
            Err(e) => Err(e),
            Ok(y1) => match div_spec(x, ey) {
                Err(e) => Err(e),
                Ok(q) => add_spec(y1, q),
            },
        },
    }
}

/// The `i`-th Newton iterate for `ln(x)`, starting from one.
pub open spec fn ln_iterate(x: int, i: nat) -> Result<int, MathError>
    decreases i,
{
    if i == 0 {
        Ok(FX_SCALE as int)
    } else {
        match ln_iterate(x, (i - 1) as nat) {
            Err(e) => Err(e),
            Ok(y) => newton_step(x, y),
        }
    }
}

/// `ln(x)` after ten Newton refinements; no logarithm for `x <= 0`.
pub open spec fn ln_spec(x: int) -> Result<int, MathError> {
    if x <= 0 {
        Err(MathError::Diverged)
    } else {
        ln_iterate(x, LN_ITERATIONS as nat)
    }
}

pub proof fn lemma_round_div_bounds(n: int, d: int)
    requires
        d > 0,
    ensures
        n >= 0 ==> 0 <= round_div(n, d) <= n,
        n < 0 ==> n <= round_div(n, d) <= 0,
        d == 1 ==> round_div(n, d) == n,
{
    if n >= 0 {
        assert((2 * n + d) / (2 * d) <= n) by (nonlinear_arith)
            requires
                n >= 0,
                d > 0,
        ;
        assert((2 * n + d) / (2 * d) >= 0) by (nonlinear_arith)
            requires
                n >= 0,
                d > 0,
        ;
        if d == 1 {
            assert((2 * n + 1) / 2 == n);
        }
    } else {
        let m = -n;
        assert((2 * m + d) / (2 * d) <= m) by (nonlinear_arith)
            requires
                m > 0,
                d > 0,
        ;
        assert((2 * m + d) / (2 * d) >= 0) by (nonlinear_arith)
            requires
                m > 0,
                d > 0,
        ;
        if d == 1 {
            assert((2 * m + 1) / 2 == m);
        }
    }
}

/// For `x >= 0` every Taylor term is non-negative and the partial sums never
/// fall below one.
pub proof fn lemma_exp_series_nonneg(x: int, k: nat)
    requires
        x >= 0,
        exp_series(x, k) is Ok,
    ensures
        exp_series(x, k)->Ok_0.0 >= 0,
        exp_series(x, k)->Ok_0.1 >= FX_SCALE,
    decreases k,
{
    if k > 0 {
        lemma_exp_series_nonneg(x, (k - 1) as nat);
        let (t, s) = exp_series(x, (k - 1) as nat)->Ok_0;
        assert(t * x >= 0) by (nonlinear_arith)
            requires
                t >= 0,
                x >= 0,
        ;
        lemma_round_div_bounds(t * x, FX_SCALE as int);
        let tx = mul_spec(t, x)->Ok_0;
        lemma_round_div_bounds(tx, k as int);
    }
}

/// `exp(x) >= 1` for `x >= 0`.
pub proof fn lemma_exp_at_least_one(x: int)
    requires
        x >= 0,
        exp_spec(x) is Ok,
    ensures
        exp_spec(x)->Ok_0 >= FX_SCALE,
{
    lemma_exp_series_nonneg(x, EXP_TERMS as nat);
}

/// Rounded division of an `i128` numerator by a positive `i128` divisor.
pub(crate) fn round_div_exec(n: i128, d: i128) -> (r: i128)
    requires
        d > 0,
        -FX_MAX * FX_MAX * 40 <= n <= FX_MAX * FX_MAX * 40,
        d <= FX_MAX * FX_MAX,
    ensures
        r == round_div(n as int, d as int),
{
    proof {
        lemma_round_div_bounds(n as int, d as int);
    }
    if n >= 0 {
        (2 * n + d) / (2 * d)
    } else {
        let m: i128 = -n;
        -((2 * m + d) / (2 * d))
    }
}

fn to_result(v: i128) -> (r: Result<i128, MathError>)
    ensures
        match r {
            Ok(x) => checked(v as int) == Ok::<int, MathError>(x as int),
            Err(e) => checked(v as int) == Err::<int, MathError>(e),
        },
{
    if v > FX_MAX {
        Err(MathError::Overflow)
    } else if v < -FX_MAX {
        Err(MathError::Underflow)
    } else {
        Ok(v)
    }
}

/// Lifts a fixed-point result into `Result<int, _>` so that contracts can
/// compare it with the spec functions.
pub open spec fn as_int(r: Result<i128, MathError>) -> Result<int, MathError> {
    match r {
        Ok(v) => Ok(v as int),
        Err(e) => Err(e),
    }
}

pub fn fx_add(a: i128, b: i128) -> (r: Result<i128, MathError>)
    requires
        fits(a as int),
        fits(b as int),
    ensures
        as_int(r) == add_spec(a as int, b as int),
        r matches Ok(v) ==> fits(v as int),
{
    to_result(a + b)
}

pub fn fx_sub(a: i128, b: i128) -> (r: Result<i128, MathError>)
    requires
        fits(a as int),
        fits(b as int),
    ensures
        as_int(r) == sub_spec(a as int, b as int),
        r matches Ok(v) ==> fits(v as int),
{
    to_result(a - b)
}

pub fn fx_mul(a: i128, b: i128) -> (r: Result<i128, MathError>)
    requires
        fits(a as int),
        fits(b as int),
    ensures
        as_int(r) == mul_spec(a as int, b as int),
        r matches Ok(v) ==> fits(v as int),
{
    assert(-FX_MAX * FX_MAX <= a * b <= FX_MAX * FX_MAX) by (nonlinear_arith)
        requires
            fits(a as int),
            fits(b as int),
    ;
    let p: i128 = a * b;
    let q = round_div_exec(p, FX_SCALE);
    proof {
        lemma_round_div_bounds(p as int, FX_SCALE as int);
    }
    to_result(q)
}

pub fn fx_div(a: i128, b: i128) -> (r: Result<i128, MathError>)
    requires
        fits(a as int),
        fits(b as int),
    ensures
        as_int(r) == div_spec(a as int, b as int),
        r matches Ok(v) ==> fits(v as int),
{
    if b == 0 {
        return Err(MathError::DivisionByZero);
    }
    let (n, d): (i128, i128) = if b > 0 {
        (a * FX_SCALE, b)
    } else {
        (-a * FX_SCALE, -b)
    };
    let q = round_div_exec(n, d);
    proof {
        lemma_round_div_bounds(n as int, d as int);
    }
    to_result(q)
}

/// The fixed-point value of `n / d` for two unsigned integers.
pub fn fx_ratio(n: u64, d: u64) -> (r: Result<i128, MathError>)
    ensures
        as_int(r) == ratio_spec(n as int, d as int),
        r matches Ok(v) ==> fits(v as int),
{
    if d == 0 {
        return Err(MathError::DivisionByZero);
    }
    let nn: i128 = (n as i128) * FX_SCALE;
    let q = round_div_exec(nn, d as i128);
    proof {
        lemma_round_div_bounds(nn as int, d as int);
    }
    to_result(q)
}

proof fn lemma_exp_series_err(x: int, j: nat, k: nat)
    requires
        j <= k,
        exp_series(x, j) is Err,
    ensures
        exp_series(x, k) == exp_series(x, j),
    decreases k - j,
{
    if j < k {
        lemma_exp_series_err(x, j, (k - 1) as nat);
    }
}

proof fn lemma_ln_iterate_err(x: int, j: nat, k: nat)
    requires
        j <= k,
        ln_iterate(x, j) is Err,
    ensures
        ln_iterate(x, k) == ln_iterate(x, j),
    decreases k - j,
{
    if j < k {
        lemma_ln_iterate_err(x, j, (k - 1) as nat);
    }
}

/// `exp(x)` by its Taylor expansion of orders zero to ten.
pub fn fx_exp(x: i128) -> (r: Result<i128, MathError>)
    requires
        fits(x as int),
    ensures
        as_int(r) == exp_spec(x as int),
        r matches Ok(v) ==> fits(v as int),
{
    let mut term: i128 = FX_SCALE;
    let mut sum: i128 = FX_SCALE;
    let mut k: i128 = 1;
    while k <= EXP_TERMS
        invariant
            1 <= k <= EXP_TERMS + 1,
            fits(x as int),
            fits(term as int),
            fits(sum as int),
            exp_series(x as int, (k - 1) as nat) == Ok::<(int, int), MathError>(
                (term as int, sum as int),
            ),
        decreases EXP_TERMS + 1 - k,
    {
        let tx = match fx_mul(term, x) {
            Ok(v) => v,
            Err(e) => {
                proof {
                    lemma_exp_series_err(x as int, k as nat, EXP_TERMS as nat);
                }
                return Err(e);
            },
        };
        let t2 = round_div_exec(tx, k);
        proof {
            lemma_round_div_bounds(tx as int, k as int);
        }
        let s2 = match fx_add(sum, t2) {
            Ok(v) => v,
            Err(e) => {
                proof {
                    lemma_exp_series_err(x as int, k as nat, EXP_TERMS as nat);
                }
                return Err(e);
            },
        };
        term = t2;
        sum = s2;
        k = k + 1;
    }
    Ok(sum)
}

/// `ln(x)` by ten Newton refinements of `y - 1 + x / exp(y)` from `y = 1`.
pub fn fx_ln(x: i128) -> (r: Result<i128, MathError>)
    requires
        fits(x as int),
    ensures
        as_int(r) == ln_spec(x as int),
        r matches Ok(v) ==> fits(v as int),
{
    if x <= 0 {
        return Err(MathError::Diverged);
    }
    let mut y: i128 = FX_SCALE;
    let mut i: u32 = 0;
    while i < LN_ITERATIONS
        invariant
            0 <= i <= LN_ITERATIONS,
            0 < x <= FX_MAX,
            fits(y as int),
            ln_iterate(x as int, i as nat) == Ok::<int, MathError>(y as int),
        decreases LN_ITERATIONS - i,
    {
        let step = fx_exp(y);
        let ey = match step {
            Ok(v) => v,
            Err(e) => {
                proof {
                    lemma_ln_iterate_err(x as int, (i + 1) as nat, LN_ITERATIONS as nat);
                }
                return Err(e);
            },
        };
        let ys = match fx_sub(y, FX_SCALE) {
            Ok(v) => v,
            Err(e) => {
                proof {
                    lemma_ln_iterate_err(x as int, (i + 1) as nat, LN_ITERATIONS as nat);
                }
                return Err(e);
            },
        };
        let q = match fx_div(x, ey) {
            Ok(v) => v,
            Err(e) => {
                proof {
                    lemma_ln_iterate_err(x as int, (i + 1) as nat, LN_ITERATIONS as nat);
                }
                return Err(e);
            },
        };
        let y2 = match fx_add(ys, q) {
            Ok(v) => v,
            Err(e) => {
                proof {
                    lemma_ln_iterate_err(x as int, (i + 1) as nat, LN_ITERATIONS as nat);
                }
                return Err(e);
            },
        };
        y = y2;
        i = i + 1;
    }
    Ok(y)
}

} // verus!
