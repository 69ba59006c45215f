//! Pricing curves: the linear constant-liquidity curve and the logarithmic
//! market scoring rule (LMSR), behind one interface.
use vstd::prelude::*;

use vstd::arithmetic::div_mod::*;

use crate::error::{from_math, math_error_spec, MarketError};
use crate::fixed::{
    add_spec, as_int, div_spec, exp_spec, fits, fx_add, fx_div, fx_exp, fx_ln, fx_ratio,
    lemma_exp_at_least_one, lemma_round_div_bounds,
    ln_spec, ratio_spec, round_div, round_div_exec, MathError, FX_MAX, FX_SCALE,
};

verus! {

/// Denominator of constant-liquidity prices: a price of `PRICE_PRECISION` is certainty.
pub const PRICE_PRECISION: u64 = 1000;

/// Lowest price the constant-liquidity curve quotes.
pub const MIN_PRICE: u64 = 10;

/// Highest price the constant-liquidity curve quotes.
pub const MAX_PRICE: u64 = 990;

/// Default liquidity parameter of a constant-liquidity market.
pub const LIQUIDITY_PARAMETER: u64 = 1000;

/// Protocol fee of LMSR trades, in basis points.
pub const PROTOCOL_FEE_BPS: u64 = 100;

/// Basis points in a whole.
pub const BPS_DENOMINATOR: u64 = 10_000;

#[derive(Clone, Copy, Debug, PartialEq, Eq, Structural)]
pub enum ShareOutcome {
    Yes,
    No,
}

impl ShareOutcome {
    pub open spec fn other(self) -> ShareOutcome {
        match self {
            ShareOutcome::Yes => ShareOutcome::No,
            ShareOutcome::No => ShareOutcome::Yes,
        }
    }

    /// The other outcome.
    pub fn opposite(&self) -> (r: ShareOutcome)
        ensures
            r == self.other(),
    {
        match self {
            ShareOutcome::Yes => ShareOutcome::No,
            ShareOutcome::No => ShareOutcome::Yes,
        }
    }
}

/// The market-making curve of a market, with its immutable parameter.
#[derive(Clone, Copy, Debug, PartialEq, Eq, Structural)]
pub enum Curve {
    ConstantLiquidity { liquidity: u64 },
    Lmsr { b: u64 },
}

/// Widens an unsigned result so that contracts compare it with spec values.
pub open spec fn as_int_result(r: Result<u64, MarketError>) -> Result<int, MarketError> {
    match r {
        Ok(v) => Ok(v as int),
        Err(e) => Err(e),
    }
}

/// Accepts an amount that fits a `u64`.
pub open spec fn amount(v: int) -> Result<int, MarketError> {
    if v > u64::MAX {
        Err(MarketError::MathOverflow)
    } else if v < 0 {
        Err(MarketError::MathUnderflow)
    } else {
        Ok(v)
    }
}

/// Outstanding shares of `outcome`.
pub open spec fn side(yes: int, no: int, outcome: ShareOutcome) -> int {
    match outcome {
        ShareOutcome::Yes => yes,
        ShareOutcome::No => no,
    }
}

/// Outstanding shares of the outcome opposite to `outcome`.
pub open spec fn other_side(yes: int, no: int, outcome: ShareOutcome) -> int {
    match outcome {
        ShareOutcome::Yes => no,
        ShareOutcome::No => yes,
    }
}

// ---------------------------------------------------------------------------
// Constant liquidity
// ---------------------------------------------------------------------------

/// Unclamped price: the opposite side's share of all outstanding shares.
pub open spec fn raw_price(yes: int, no: int, outcome: ShareOutcome) -> int {
    other_side(yes, no, outcome) * PRICE_PRECISION / (yes + no)
}

pub open spec fn clamp_price(p: int) -> int {
    if p < MIN_PRICE {
        MIN_PRICE as int
    } else if p > MAX_PRICE {
        MAX_PRICE as int
    } else {
        p
    }
}

pub open spec fn cl_price_spec(yes: int, no: int, outcome: ShareOutcome) -> Result<
    int,
    MarketError,
> {
    if yes + no > u64::MAX || yes + no == 0 {
        Err(MarketError::MathOverflow)
    } else {
        Ok(clamp_price(raw_price(yes, no, outcome)))
    }
}

/// Linear price impact of trading `n` shares.
pub open spec fn impact(n: int, liquidity: int) -> int {
    n * PRICE_PRECISION / liquidity
}

pub open spec fn cl_buy_cost_spec(
    yes: int,
    no: int,
    outcome: ShareOutcome,
    n: int,
    liquidity: int,
) -> Result<int, MarketError> {
    match cl_price_spec(yes, no, outcome) {
        Err(e) => Err(e),
        Ok(p) => if liquidity == 0 {
            Err(MarketError::DivisionByZero)
        } else if n * PRICE_PRECISION > u64::MAX {
            Err(MarketError::MathOverflow)
        } else if p + impact(n, liquidity) > u64::MAX {
            Err(MarketError::MathOverflow)
        } else if n * (p + impact(n, liquidity)) > u64::MAX {
            Err(MarketError::MathOverflow)
        } else {
            Ok(n * (p + impact(n, liquidity)) / PRICE_PRECISION as int)
        },
    }
}

/// Sell-side price: the price lowered by the impact, never below zero.
pub open spec fn sell_price(p: int, n: int, liquidity: int) -> int {
    if p > impact(n, liquidity) {
        p - impact(n, liquidity)
    } else {
        0
    }
}

pub open spec fn cl_sell_payout_spec(
    yes: int,
    no: int,
    outcome: ShareOutcome,
    n: int,
    liquidity: int,
) -> Result<int, MarketError> {
    match cl_price_spec(yes, no, outcome) {
        Err(e) => Err(e),
        Ok(p) => if liquidity == 0 {
            Err(MarketError::DivisionByZero)
        } else if n * PRICE_PRECISION > u64::MAX {
            Err(MarketError::MathOverflow)
        } else if n * sell_price(p, n, liquidity) > u64::MAX {
            Err(MarketError::MathOverflow)
        } else {
            Ok(n * sell_price(p, n, liquidity) / PRICE_PRECISION as int)
        },
    }
}

proof fn lemma_mul_u64_fits_u128(a: int, b: int)
    requires
        0 <= a <= u64::MAX,
        0 <= b <= u64::MAX,
    ensures
        0 <= a * b <= u128::MAX,
{
    assert(0 <= a * b <= u64::MAX * u64::MAX) by (nonlinear_arith)
        requires
            0 <= a <= u64::MAX,
            0 <= b <= u64::MAX,
    ;
}

/// Price of `outcome` on the constant-liquidity curve, in `PRICE_PRECISION` units,
/// clamped to `[MIN_PRICE, MAX_PRICE]`.
pub fn calculate_price(yes: u64, no: u64, outcome: ShareOutcome) -> (r: Result<u64, MarketError>)
    ensures
        as_int_result(r) == cl_price_spec(yes as int, no as int, outcome),
{
    let total: u128 = yes as u128 + no as u128;
    if total > u64::MAX as u128 || total == 0 {
        return Err(MarketError::MathOverflow);
    }
    let opposite: u128 = match outcome {
        ShareOutcome::Yes => no as u128,
        ShareOutcome::No => yes as u128,
    };
    let raw: u128 = opposite * (PRICE_PRECISION as u128) / total;
    proof {
        assert(raw <= PRICE_PRECISION) by (nonlinear_arith)
            requires
                raw == (opposite * 1000) as int / total as int,
                opposite <= total,
                total > 0,
        ;
    }
    let p: u128 = if raw < MIN_PRICE as u128 {
        MIN_PRICE as u128
    } else if raw > MAX_PRICE as u128 {
        MAX_PRICE as u128
    } else {
        raw
    };
    Ok(p as u64)
}

/// Cost of buying `shares` of `outcome` on the constant-liquidity curve:
/// `shares * (price + shares * PRICE_PRECISION / liquidity) / PRICE_PRECISION`.
pub fn calculate_buy_cost(
    yes: u64,
    no: u64,
    outcome: ShareOutcome,
    shares: u64,
    liquidity: u64,
) -> (r: Result<u64, MarketError>)
    ensures
        as_int_result(r) == cl_buy_cost_spec(
            yes as int,
            no as int,
            outcome,
            shares as int,
            liquidity as int,
        ),
{
    let p = match calculate_price(yes, no, outcome) {
        Ok(v) => v,
        Err(e) => return Err(e),
    };
    if liquidity == 0 {
        return Err(MarketError::DivisionByZero);
    }
    let scaled: u128 = shares as u128 * PRICE_PRECISION as u128;
    if scaled > u64::MAX as u128 {
        return Err(MarketError::MathOverflow);
    }
    let imp: u128 = scaled / liquidity as u128;
    let adjusted: u128 = p as u128 + imp;
    if adjusted > u64::MAX as u128 {
        return Err(MarketError::MathOverflow);
    }
    proof {
        lemma_mul_u64_fits_u128(shares as int, adjusted as int);
    }
    let product: u128 = shares as u128 * adjusted;
    if product > u64::MAX as u128 {
        return Err(MarketError::MathOverflow);
    }
    Ok((product / PRICE_PRECISION as u128) as u64)
}

/// Payout for selling `shares` of `outcome` on the constant-liquidity curve: the
/// price impact is subtracted, saturating at zero.
pub fn calculate_sell_payout(
    yes: u64,
    no: u64,
    outcome: ShareOutcome,
    shares: u64,
    liquidity: u64,
) -> (r: Result<u64, MarketError>)
    ensures
        as_int_result(r) == cl_sell_payout_spec(
            yes as int,
            no as int,
            outcome,
            shares as int,
            liquidity as int,
        ),
{
    let p = match calculate_price(yes, no, outcome) {
        Ok(v) => v,
        Err(e) => return Err(e),
    };
    if liquidity == 0 {
        return Err(MarketError::DivisionByZero);
    }
    let scaled: u128 = shares as u128 * PRICE_PRECISION as u128;
    if scaled > u64::MAX as u128 {
        return Err(MarketError::MathOverflow);
    }
    let imp: u128 = scaled / liquidity as u128;
    let adjusted: u128 = if p as u128 > imp {
        p as u128 - imp
    } else {
        0
    };
    proof {
        lemma_mul_u64_fits_u128(shares as int, adjusted as int);
    }
    let product: u128 = shares as u128 * adjusted;
    if product > u64::MAX as u128 {
        return Err(MarketError::MathOverflow);
    }
    Ok((product / PRICE_PRECISION as u128) as u64)
}

// ---------------------------------------------------------------------------
// LMSR
// ---------------------------------------------------------------------------

/// `exp(q / b)` in fixed point.
pub open spec fn lmsr_weight(q: int, b: int) -> Result<int, MathError> {
    match ratio_spec(q, b) {
        Err(e) => Err(e),
        Ok(x) => exp_spec(x),
    }
}

/// The two weights `exp(q_yes / b)`, `exp(q_no / b)` and their sum.
pub open spec fn lmsr_weights(yes: int, no: int, b: int) -> Result<(int, int, int), MathError> {
    match lmsr_weight(yes, b) {
        Err(e) => Err(e),
        Ok(ey) => match lmsr_weight(no, b) {
            Err(e) => Err(e),
            Ok(en) => match add_spec(ey, en) {
                Err(e) => Err(e),
                Ok(s) => Ok((ey, en, s)),
            },
        },
    }
}

/// The LMSR cost function `C = b * ln(exp(q_yes / b) + exp(q_no / b))`, in
/// collateral units.
pub open spec fn lmsr_cost_spec(yes: int, no: int, b: int) -> Result<int, MarketError> {
    match lmsr_weights(yes, no, b) {
        Err(e) => Err(math_error_spec(e)),
        Ok((_, _, s)) => match ln_spec(s) {
            Err(e) => Err(math_error_spec(e)),
            Ok(l) => amount(round_div(l * b, FX_SCALE as int)),
        },
    }
}

/// The LMSR price `exp(q_outcome / b) / (exp(q_yes / b) + exp(q_no / b))`, in
/// fixed point (`FX_SCALE` is certainty).
pub open spec fn lmsr_price_spec(yes: int, no: int, b: int, outcome: ShareOutcome) -> Result<
    int,
    MarketError,
> {
    match lmsr_weights(yes, no, b) {
        Err(e) => Err(math_error_spec(e)),
        Ok((ey, en, s)) => match div_spec(side(ey, en, outcome), s) {
            Err(e) => Err(math_error_spec(e)),
            Ok(p) => amount(p),
        },
    }
}

/// Shares outstanding after `n` shares of `outcome` are added (`yes`, `no`).
pub open spec fn added(yes: int, no: int, outcome: ShareOutcome, n: int) -> (int, int) {
    match outcome {
        ShareOutcome::Yes => (yes + n, no),
        ShareOutcome::No => (yes, no + n),
    }
}

pub open spec fn lmsr_buy_cost_spec(
    yes: int,
    no: int,
    outcome: ShareOutcome,
    n: int,
    b: int,
) -> Result<int, MarketError> {
    if side(yes, no, outcome) + n > u64::MAX {
        Err(MarketError::MathOverflow)
    } else {
        match lmsr_cost_spec(yes, no, b) {
            Err(e) => Err(e),
            Ok(c0) => match lmsr_cost_spec(
                added(yes, no, outcome, n).0,
                added(yes, no, outcome, n).1,
                b,
            ) {
                Err(e) => Err(e),
                Ok(c1) => if c1 < c0 {
                    Err(MarketError::MathUnderflow)
                } else {
                    Ok(c1 - c0)
                },
            },
        }
    }
}

pub open spec fn lmsr_sell_value_spec(
    yes: int,
    no: int,
    outcome: ShareOutcome,
    n: int,
    b: int,
) -> Result<int, MarketError> {
    if side(yes, no, outcome) < n {
        Err(MarketError::MathUnderflow)
    } else {
        match lmsr_cost_spec(yes, no, b) {
            Err(e) => Err(e),
            Ok(c0) => match lmsr_cost_spec(
                added(yes, no, outcome, -n).0,
                added(yes, no, outcome, -n).1,
                b,
            ) {
                Err(e) => Err(e),
                Ok(c1) => if c0 < c1 {
                    Err(MarketError::MathUnderflow)
                } else {
                    Ok(c0 - c1)
                },
            },
        }
    }
}

fn lmsr_weight_exec(q: u64, b: u64) -> (r: Result<i128, MathError>)
    ensures
        as_int(r) == lmsr_weight(q as int, b as int),
        r matches Ok(v) ==> fits(v as int),
{
    match fx_ratio(q, b) {
        Err(e) => Err(e),
        Ok(x) => fx_exp(x),
    }
}

fn lmsr_weights_exec(yes: u64, no: u64, b: u64) -> (r: Result<(i128, i128, i128), MathError>)
    ensures
        match r {
            Ok((ey, en, s)) => lmsr_weights(yes as int, no as int, b as int) == Ok::<
                (int, int, int),
                MathError,
            >((ey as int, en as int, s as int)) && fits(ey as int) && fits(en as int) && fits(
                s as int,
            ),
            Err(e) => lmsr_weights(yes as int, no as int, b as int) == Err::<
                (int, int, int),
                MathError,
            >(e),
        },
{
    let ey = match lmsr_weight_exec(yes, b) {
        Ok(v) => v,
        Err(e) => return Err(e),
    };
    let en = match lmsr_weight_exec(no, b) {
        Ok(v) => v,
        Err(e) => return Err(e),
    };
    match fx_add(ey, en) {
        Ok(s) => Ok((ey, en, s)),
        Err(e) => Err(e),
    }
}

/// The LMSR cost function `b * ln(exp(q_yes / b) + exp(q_no / b))`, in collateral units.
pub fn lmsr_cost(yes: u64, no: u64, b: u64) -> (r: Result<u64, MarketError>)
    ensures
        as_int_result(r) == lmsr_cost_spec(yes as int, no as int, b as int),
{
    let (_, _, s) = match lmsr_weights_exec(yes, no, b) {
        Ok(w) => w,
        Err(e) => return Err(from_math(e)),
    };
    let l = match fx_ln(s) {
        Ok(v) => v,
        Err(e) => return Err(from_math(e)),
    };
    assert(-FX_MAX * u64::MAX <= l * b <= FX_MAX * u64::MAX) by (nonlinear_arith)
        requires
            fits(l as int),
            0 <= b <= u64::MAX,
    ;
    let product: i128 = l * (b as i128);
    let c = round_div_exec(product, FX_SCALE);
    if c < 0 {
        return Err(MarketError::MathUnderflow);
    }
    if c > u64::MAX as i128 {
        return Err(MarketError::MathOverflow);
    }
    Ok(c as u64)
}

/// The LMSR price of `outcome`, in fixed point (`FX_SCALE` is certainty).
pub fn lmsr_price(yes: u64, no: u64, b: u64, outcome: ShareOutcome) -> (r: Result<
    u64,
    MarketError,
>)
    ensures
        as_int_result(r) == lmsr_price_spec(yes as int, no as int, b as int, outcome),
{
    let (ey, en, s) = match lmsr_weights_exec(yes, no, b) {
        Ok(w) => w,
        Err(e) => return Err(from_math(e)),
    };
    let top = match outcome {
        ShareOutcome::Yes => ey,
        ShareOutcome::No => en,
    };
    let p = match fx_div(top, s) {
        Ok(v) => v,
        Err(e) => return Err(from_math(e)),
    };
    if p < 0 {
        return Err(MarketError::MathUnderflow);
    }
    if p > u64::MAX as i128 {
        return Err(MarketError::MathOverflow);
    }
    Ok(p as u64)
}

/// Cost of buying `n` shares of `outcome` under LMSR: `C(after) - C(before)`.
pub fn lmsr_buy_cost(yes: u64, no: u64, outcome: ShareOutcome, n: u64, b: u64) -> (r: Result<
    u64,
    MarketError,
>)
    ensures
        as_int_result(r) == lmsr_buy_cost_spec(yes as int, no as int, outcome, n as int, b as int),
{
    let (ny, nn): (u64, u64) = match outcome {
        ShareOutcome::Yes => {
            if yes > u64::MAX - n {
                return Err(MarketError::MathOverflow);
            }
            (yes + n, no)
        },
        ShareOutcome::No => {
            if no > u64::MAX - n {
                return Err(MarketError::MathOverflow);
            }
            (yes, no + n)
        },
    };
    let c0 = match lmsr_cost(yes, no, b) {
        Ok(v) => v,
        Err(e) => return Err(e),
    };
    let c1 = match lmsr_cost(ny, nn, b) {
        Ok(v) => v,
        Err(e) => return Err(e),
    };
    if c1 < c0 {
        return Err(MarketError::MathUnderflow);
    }
    Ok(c1 - c0)
}

/// Collateral released by selling `n` shares of `outcome` under LMSR, before fees:
/// `C(before) - C(after)`.
pub fn lmsr_sell_value(yes: u64, no: u64, outcome: ShareOutcome, n: u64, b: u64) -> (r: Result<
    u64,
    MarketError,
>)
    ensures
        as_int_result(r) == lmsr_sell_value_spec(
            yes as int,
            no as int,
            outcome,
            n as int,
            b as int,
        ),
{
    let (ny, nn): (u64, u64) = match outcome {
        ShareOutcome::Yes => {
            if yes < n {
                return Err(MarketError::MathUnderflow);
            }
            (yes - n, no)
        },
        ShareOutcome::No => {
            if no < n {
                return Err(MarketError::MathUnderflow);
            }
            (yes, no - n)
        },
    };
    let c0 = match lmsr_cost(yes, no, b) {
        Ok(v) => v,
        Err(e) => return Err(e),
    };
    let c1 = match lmsr_cost(ny, nn, b) {
        Ok(v) => v,
        Err(e) => return Err(e),
    };
    if c0 < c1 {
        return Err(MarketError::MathUnderflow);
    }
    Ok(c0 - c1)
}

} // verus!

verus! {

/// The binary search of `shares_for_budget` over `lo..=hi`.
pub open spec fn search(
    curve: Curve,
    yes: int,
    no: int,
    outcome: ShareOutcome,
    limit: int,
    lo: int,
    hi: int,
) -> int
    decreases hi - lo,
{
    if lo >= hi {
        lo
    } else {
        let mid = lo + (hi - lo - 1) / 2 + 1;
        if curve.affordable(yes, no, outcome, mid, limit) {
            search(curve, yes, no, outcome, limit, mid, hi)
        } else {
            search(curve, yes, no, outcome, limit, lo, mid - 1)
        }
    }
}

/// What `shares_for_budget` returns.
pub open spec fn shares_for_budget_spec(
    curve: Curve,
    yes: int,
    no: int,
    outcome: ShareOutcome,
    budget: int,
) -> Result<int, MarketError> {
    match curve.buy_cost_spec(yes, no, outcome, 0) {
        Err(e) => Err(e),
        Ok(_) => Ok(
            search(
                curve,
                yes,
                no,
                outcome,
                budget - curve.fee_spec(budget),
                0,
                u64::MAX - side(yes, no, outcome),
            ),
        ),
    }
}

impl Curve {
    /// The curve's immutable parameter: `L` or `b`.
    pub open spec fn param(self) -> int {
        match self {
            Curve::ConstantLiquidity { liquidity } => liquidity as int,
            Curve::Lmsr { b } => b as int,
        }
    }

    pub open spec fn price_spec(self, yes: int, no: int, outcome: ShareOutcome) -> Result<
        int,
        MarketError,
    > {
        match self {
            Curve::ConstantLiquidity { .. } => cl_price_spec(yes, no, outcome),
            Curve::Lmsr { b } => lmsr_price_spec(yes, no, b as int, outcome),
        }
    }

    pub open spec fn buy_cost_spec(self, yes: int, no: int, outcome: ShareOutcome, n: int) -> Result<
        int,
        MarketError,
    > {
        match self {
            Curve::ConstantLiquidity { liquidity } => cl_buy_cost_spec(
                yes,
                no,
                outcome,
                n,
                liquidity as int,
            ),
            Curve::Lmsr { b } => lmsr_buy_cost_spec(yes, no, outcome, n, b as int),
        }
    }

    pub open spec fn sell_value_spec(self, yes: int, no: int, outcome: ShareOutcome, n: int) -> Result<
        int,
        MarketError,
    > {
        match self {
            Curve::ConstantLiquidity { liquidity } => cl_sell_payout_spec(
                yes,
                no,
                outcome,
                n,
                liquidity as int,
            ),
            Curve::Lmsr { b } => lmsr_sell_value_spec(yes, no, outcome, n, b as int),
        }
    }

    pub open spec fn fee_bps_spec(self) -> int {
        match self {
            Curve::ConstantLiquidity { .. } => 0,
            Curve::Lmsr { .. } => PROTOCOL_FEE_BPS as int,
        }
    }

    /// The protocol fee charged on `x`.
    pub open spec fn fee_spec(self, x: int) -> int {
        x * self.fee_bps_spec() / BPS_DENOMINATOR as int
    }

    /// Collateral locked when a market is seeded with `seed` shares of each outcome.
    pub open spec fn seed_collateral_spec(self, seed: int) -> Result<int, MarketError> {
        match self {
            Curve::ConstantLiquidity { .. } => amount(2 * seed),
            Curve::Lmsr { b } => lmsr_cost_spec(seed, seed, b as int),
        }
    }

    /// `n` shares of `outcome` can be bought for at most `limit`.
    pub open spec fn affordable(
        self,
        yes: int,
        no: int,
        outcome: ShareOutcome,
        n: int,
        limit: int,
    ) -> bool {
        match self.buy_cost_spec(yes, no, outcome, n) {
            Ok(c) => c <= limit,
            Err(_) => false,
        }
    }

    /// Price of `outcome`: in `PRICE_PRECISION` units, clamped, for the
    /// constant-liquidity curve; in fixed point for LMSR.
    pub fn price(&self, yes: u64, no: u64, outcome: ShareOutcome) -> (r: Result<u64, MarketError>)
        ensures
            as_int_result(r) == self.price_spec(yes as int, no as int, outcome),
    {
        match *self {
            Curve::ConstantLiquidity { .. } => calculate_price(yes, no, outcome),
            Curve::Lmsr { b } => lmsr_price(yes, no, b, outcome),
        }
    }

    /// Value of a price of certainty on this curve.
    pub fn price_scale(&self) -> (r: u64)
        ensures
            self is ConstantLiquidity ==> r == PRICE_PRECISION,
            self is Lmsr ==> r == FX_SCALE,
    {
        match *self {
            Curve::ConstantLiquidity { .. } => PRICE_PRECISION,
            Curve::Lmsr { .. } => FX_SCALE as u64,
        }
    }

    /// Collateral a buyer pays for `n` shares of `outcome`.
    pub fn cost_to_trade(&self, yes: u64, no: u64, outcome: ShareOutcome, n: u64) -> (r: Result<
        u64,
        MarketError,
    >)
        ensures
            as_int_result(r) == self.buy_cost_spec(yes as int, no as int, outcome, n as int),
    {
        match *self {
            Curve::ConstantLiquidity { liquidity } => calculate_buy_cost(
                yes,
                no,
                outcome,
                n,
                liquidity,
            ),
            Curve::Lmsr { b } => lmsr_buy_cost(yes, no, outcome, n, b),
        }
    }

    /// Collateral released by selling `n` shares of `outcome`, before fees.
    pub fn sell_value(&self, yes: u64, no: u64, outcome: ShareOutcome, n: u64) -> (r: Result<
        u64,
        MarketError,
    >)
        ensures
            as_int_result(r) == self.sell_value_spec(yes as int, no as int, outcome, n as int),
    {
        match *self {
            Curve::ConstantLiquidity { liquidity } => calculate_sell_payout(
                yes,
                no,
                outcome,
                n,
                liquidity,
            ),
            Curve::Lmsr { b } => lmsr_sell_value(yes, no, outcome, n, b),
        }
    }

    /// The protocol fee on `x`, rounded down.
    pub fn fee_on(&self, x: u64) -> (r: u64)
        ensures
            r == self.fee_spec(x as int),
            r <= x,
    {
        let bps: u128 = match *self {
            Curve::ConstantLiquidity { .. } => 0,
            Curve::Lmsr { .. } => PROTOCOL_FEE_BPS as u128,
        };
        let f: u128 = (x as u128) * bps / (BPS_DENOMINATOR as u128);
        assert(f <= x) by (nonlinear_arith)
            requires
                f == ((x * bps) as int) / 10000,
                bps <= 100,
        ;
        f as u64
    }

    /// Collateral locked by a market seeded with `seed` shares of each outcome:
    /// twice the seed for the constant-liquidity curve, `C(seed, seed)` for LMSR.
    pub fn seed_collateral(&self, seed: u64) -> (r: Result<u64, MarketError>)
        ensures
            as_int_result(r) == self.seed_collateral_spec(seed as int),
    {
        match *self {
            Curve::ConstantLiquidity { .. } => {
                if seed > u64::MAX / 2 {
                    Err(MarketError::MathOverflow)
                } else {
                    Ok(seed * 2)
                }
            },
            Curve::Lmsr { b } => lmsr_cost(seed, seed, b),
        }
    }

    /// The number of shares of `outcome` that `budget` buys once the protocol fee
    /// is taken from it, found by binary search over `0..=u64::MAX - outstanding`.
    /// The result is affordable and one more share is not; on the
    /// constant-liquidity curve, whose cost grows with the quantity, no larger
    /// quantity is affordable either.
    pub fn shares_for_budget(&self, yes: u64, no: u64, outcome: ShareOutcome, budget: u64) -> (r:
        Result<u64, MarketError>)
        ensures
            as_int_result(r) == shares_for_budget_spec(
                *self,
                yes as int,
                no as int,
                outcome,
                budget as int,
            ),
            match r {
                Ok(n) => {
                    let net = budget - self.fee_spec(budget as int);
                    let top = u64::MAX - side(yes as int, no as int, outcome);
                    &&& self.buy_cost_spec(yes as int, no as int, outcome, 0) is Ok
                    &&& n <= top
                    &&& self.affordable(yes as int, no as int, outcome, n as int, net)
                    &&& (n == top || !self.affordable(yes as int, no as int, outcome, n + 1, net))
                    &&& (self is ConstantLiquidity ==> forall|m: int|
                        n < m <= top ==> !self.affordable(yes as int, no as int, outcome, m, net))
                },
                Err(e) => self.buy_cost_spec(yes as int, no as int, outcome, 0) == Err::<
                    int,
                    MarketError,
                >(e),
            },
    {
        match self.cost_to_trade(yes, no, outcome, 0) {
            Err(e) => return Err(e),
            Ok(_) => {},
        }
        let net: u64 = budget - self.fee_on(budget);
        let top: u64 = match outcome {
            ShareOutcome::Yes => u64::MAX - yes,
            ShareOutcome::No => u64::MAX - no,
        };
        let ghost yi = yes as int;
        let ghost ni = no as int;
        let mut lo: u64 = 0;
        let mut hi: u64 = top;
        while lo < hi
            invariant
                lo <= hi <= top,
                top == u64::MAX - side(yi, ni, outcome),
                yi == yes,
                ni == no,
                net == budget - self.fee_spec(budget as int),
                self.affordable(yi, ni, outcome, lo as int, net as int),
                hi == top || !self.affordable(yi, ni, outcome, hi + 1, net as int),
                search(*self, yi, ni, outcome, net as int, lo as int, hi as int) == search(
                    *self,
                    yi,
                    ni,
                    outcome,
                    net as int,
                    0,
                    top as int,
                ),
            decreases hi - lo,
        {
            let mid: u64 = lo + (hi - lo - 1) / 2 + 1;
            let fits_budget = match self.cost_to_trade(yes, no, outcome, mid) {
                Ok(c) => c <= net,
                Err(_) => false,
            };
            if fits_budget {
                lo = mid;
            } else {
                hi = mid - 1;
            }
        }
        proof {
            if *self is ConstantLiquidity && lo < top {
                assert forall|m: int| lo < m <= top implies !self.affordable(
                    yi,
                    ni,
                    outcome,
                    m,
                    net as int,
                ) by {
                    if self.affordable(yi, ni, outcome, m, net as int) {
                        lemma_cl_cost_monotone(yi, ni, outcome, self.param(), lo + 1, m);
                    }
                }
            }
        }
        Ok(lo)
    }
}

/// Constant-liquidity buy costs grow with the quantity, over the spec function.
proof fn lemma_cl_cost_monotone(
    yes: int,
    no: int,
    outcome: ShareOutcome,
    liquidity: int,
    n1: int,
    n2: int,
)
    requires
        0 <= n1 <= n2,
        liquidity >= 0,
        cl_buy_cost_spec(yes, no, outcome, n2, liquidity) is Ok,
    ensures
        cl_buy_cost_spec(yes, no, outcome, n1, liquidity) is Ok,
        cl_buy_cost_spec(yes, no, outcome, n1, liquidity)->Ok_0 <= cl_buy_cost_spec(
            yes,
            no,
            outcome,
            n2,
            liquidity,
        )->Ok_0,
{
    let p = cl_price_spec(yes, no, outcome)->Ok_0;
    assert(p >= 0);
    assert(n1 * PRICE_PRECISION <= n2 * PRICE_PRECISION);
    lemma_div_is_ordered(n1 * PRICE_PRECISION, n2 * PRICE_PRECISION, liquidity);
    lemma_div_pos_is_pos(n1 * PRICE_PRECISION, liquidity);
    let a1 = p + impact(n1, liquidity);
    let a2 = p + impact(n2, liquidity);
    assert(n1 * a1 <= n2 * a2) by (nonlinear_arith)
        requires
            0 <= n1 <= n2,
            0 <= a1 <= a2,
    ;
    assert(n1 * a1 >= 0) by (nonlinear_arith)
        requires
            0 <= n1,
            0 <= a1,
    ;
    lemma_div_is_ordered(n1 * a1, n2 * a2, PRICE_PRECISION as int);
}

/// On the constant-liquidity curve, buying more shares never costs less: for
/// `n1 <= n2`, whenever the cost to trade `n2` shares is defined, so is the
/// cost of `n1` shares, and it is no larger.
pub proof fn lemma_constant_liquidity_cost_monotone(
    curve: Curve,
    yes: int,
    no: int,
    outcome: ShareOutcome,
    n1: int,
    n2: int,
)
    requires
        curve is ConstantLiquidity,
        0 <= n1 <= n2,
        curve.buy_cost_spec(yes, no, outcome, n2) is Ok,
    ensures
        curve.buy_cost_spec(yes, no, outcome, n1) is Ok,
        curve.buy_cost_spec(yes, no, outcome, n1)->Ok_0 <= curve.buy_cost_spec(
            yes,
            no,
            outcome,
            n2,
        )->Ok_0,
{
    lemma_cl_cost_monotone(yes, no, outcome, curve.param(), n1, n2);
}

/// Before clamping, the constant-liquidity prices of the two outcomes add up
/// to `PRICE_PRECISION` whenever the divisions are exact.
pub proof fn lemma_cl_raw_prices_sum_to_precision(yes: int, no: int)
    requires
        yes >= 0,
        no >= 0,
        yes + no > 0,
        (yes * PRICE_PRECISION) % (yes + no) == 0,
    ensures
        raw_price(yes, no, ShareOutcome::Yes) + raw_price(yes, no, ShareOutcome::No)
            == PRICE_PRECISION,
{
    let t = yes + no;
    let k = (yes * PRICE_PRECISION) / t;
    lemma_fundamental_div_mod(yes * PRICE_PRECISION, t);
    assert(yes * PRICE_PRECISION == t * k);
    assert(no * PRICE_PRECISION == t * (PRICE_PRECISION - k)) by (nonlinear_arith)
        requires
            yes * PRICE_PRECISION == t * k,
            t == yes + no,
    ;
    lemma_div_multiples_vanish(k, t);
    lemma_div_multiples_vanish(PRICE_PRECISION - k, t);
}

/// Before clamping, the constant-liquidity prices of the two outcomes add up
/// to `PRICE_PRECISION`, or one less when both divisions round down.
pub proof fn lemma_cl_raw_prices_within_one(yes: int, no: int)
    requires
        yes >= 0,
        no >= 0,
        yes + no > 0,
    ensures
        PRICE_PRECISION - 1 <= raw_price(yes, no, ShareOutcome::Yes) + raw_price(
            yes,
            no,
            ShareOutcome::No,
        ) <= PRICE_PRECISION,
{
    let t = yes + no;
    let a = no * PRICE_PRECISION;
    let c = yes * PRICE_PRECISION;
    lemma_fundamental_div_mod(a, t);
    lemma_fundamental_div_mod(c, t);
    lemma_mod_bound(a, t);
    lemma_mod_bound(c, t);
    let qa = a / t;
    let qc = c / t;
    assert(qa + qc <= PRICE_PRECISION && qa + qc >= PRICE_PRECISION - 1) by (nonlinear_arith)
        requires
            a == t * qa + a % t,
            c == t * qc + c % t,
            0 <= a % t < t,
            0 <= c % t < t,
            a + c == t * PRICE_PRECISION,
            t > 0,
    ;
}

/// Two rounded shares of one whole: if `a + c == s * d` then the rounded
/// quotients `a / d` and `c / d` add up to `s` or `s + 1`.
proof fn lemma_round_div_pair(a: int, c: int, d: int, s: int)
    requires
        a >= 0,
        c >= 0,
        d > 0,
        a + c == s * d,
    ensures
        s <= round_div(a, d) + round_div(c, d) <= s + 1,
        round_div(a, d) <= s,
        round_div(c, d) <= s,
{
    let x = 2 * a + d;
    let y = 2 * c + d;
    lemma_fundamental_div_mod(x, 2 * d);
    lemma_fundamental_div_mod(y, 2 * d);
    lemma_mod_bound(x, 2 * d);
    lemma_mod_bound(y, 2 * d);
    let q1 = x / (2 * d);
    let q2 = y / (2 * d);
    assert(s <= q1 + q2 <= s + 1 && q1 <= s && q2 <= s) by (nonlinear_arith)
        requires
            x == 2 * d * q1 + x % (2 * d),
            y == 2 * d * q2 + y % (2 * d),
            0 <= x % (2 * d) < 2 * d,
            0 <= y % (2 * d) < 2 * d,
            x == 2 * a + d,
            y == 2 * c + d,
            a + c == s * d,
            a >= 0,
            c >= 0,
            d > 0,
    ;
}

/// In any state where LMSR prices can be computed, the prices of the two
/// outcomes add up to one, within one unit of the last fixed-point digit.
pub proof fn lemma_lmsr_prices_sum_to_one(yes: int, no: int, b: int)
    requires
        yes >= 0,
        no >= 0,
        b > 0,
        lmsr_price_spec(yes, no, b, ShareOutcome::Yes) is Ok,
    ensures
        lmsr_price_spec(yes, no, b, ShareOutcome::No) is Ok,
        FX_SCALE <= lmsr_price_spec(yes, no, b, ShareOutcome::Yes)->Ok_0 + lmsr_price_spec(
            yes,
            no,
            b,
            ShareOutcome::No,
        )->Ok_0 <= FX_SCALE + 1,
{
    let xy = ratio_spec(yes, b)->Ok_0;
    let xn = ratio_spec(no, b)->Ok_0;
    lemma_round_div_bounds(yes * FX_SCALE, b);
    lemma_round_div_bounds(no * FX_SCALE, b);
    lemma_exp_at_least_one(xy);
    lemma_exp_at_least_one(xn);
    let (ey, en, s) = lmsr_weights(yes, no, b)->Ok_0;
    lemma_round_div_bounds(ey * FX_SCALE, s);
    lemma_round_div_bounds(en * FX_SCALE, s);
    assert(ey * FX_SCALE + en * FX_SCALE == FX_SCALE * s) by (nonlinear_arith)
        requires
            s == ey + en,
    ;
    lemma_round_div_pair(ey * FX_SCALE, en * FX_SCALE, s, FX_SCALE as int);
}

} // verus!

verus! {

/// The binary search only moves its lower end to affordable quantities.
pub proof fn lemma_search_affordable(
    curve: Curve,
    yes: int,
    no: int,
    outcome: ShareOutcome,
    limit: int,
    lo: int,
    hi: int,
)
    requires
        lo <= hi,
        curve.affordable(yes, no, outcome, lo, limit),
    ensures
        lo <= search(curve, yes, no, outcome, limit, lo, hi) <= hi,
        curve.affordable(yes, no, outcome, search(curve, yes, no, outcome, limit, lo, hi), limit),
    decreases hi - lo,
{
    if lo < hi {
        let mid = lo + (hi - lo - 1) / 2 + 1;
        if curve.affordable(yes, no, outcome, mid, limit) {
            lemma_search_affordable(curve, yes, no, outcome, limit, mid, hi);
        } else {
            lemma_search_affordable(curve, yes, no, outcome, limit, lo, mid - 1);
        }
    }
}

/// Buying nothing costs nothing, whenever the cost can be computed.
pub proof fn lemma_cost_of_nothing(curve: Curve, yes: int, no: int, outcome: ShareOutcome)
    requires
        curve.buy_cost_spec(yes, no, outcome, 0) is Ok,
    ensures
        curve.buy_cost_spec(yes, no, outcome, 0)->Ok_0 == 0,
{
    match curve {
        Curve::ConstantLiquidity { liquidity } => {
            assert(impact(0, liquidity as int) == 0);
        },
        Curve::Lmsr { b } => {
            assert(added(yes, no, outcome, 0) == (yes, no));
        },
    }
}

/// The fee on a non-negative amount is at most that amount.
pub proof fn lemma_fee_within(curve: Curve, x: int)
    requires
        x >= 0,
    ensures
        0 <= curve.fee_spec(x) <= x,
{
    let bps = curve.fee_bps_spec();
    assert(0 <= x * bps <= x * 10000) by (nonlinear_arith)
        requires
            x >= 0,
            0 <= bps <= 100,
    ;
    lemma_div_is_ordered(x * bps, x * 10000, 10000);
    lemma_div_pos_is_pos(x * bps, 10000);
    assert(x * 10000 / 10000 == x);
}

} // verus!
