use prediction_market::curve::{
    calculate_buy_cost, calculate_price, calculate_sell_payout, lmsr_cost, lmsr_price, Curve,
    ShareOutcome, LIQUIDITY_PARAMETER, MAX_PRICE, MIN_PRICE, PRICE_PRECISION,
};
use prediction_market::error::MarketError;
use prediction_market::market::{
    Address, LifecycleState, Market, MarketType, OracleReading, WinningOutcome, EMERGENCY_PERIOD,
    ORACLE_GRACE_PERIOD,
};

const END: i64 = 1_700_000_000;

fn addr(k: u8) -> Address {
    Address { bytes: [k; 32] }
}

fn creator() -> Address {
    addr(1)
}

fn yes_mint() -> Address {
    addr(10)
}

fn no_mint() -> Address {
    addr(11)
}

fn market(curve: Curve, market_type: MarketType, seed: u64, threshold: Option<i64>) -> Market {
    Market::create_market(
        creator(),
        creator(),
        "Will it rain tomorrow?".to_string(),
        END,
        market_type,
        curve,
        addr(3),
        seed,
        threshold,
        yes_mint(),
        no_mint(),
    )
    .unwrap()
}

fn linear(seed: u64) -> Market {
    market(
        Curve::ConstantLiquidity { liquidity: LIQUIDITY_PARAMETER },
        MarketType::Manual,
        seed,
        None,
    )
}

fn lmsr(b: u64, seed: u64) -> Market {
    market(Curve::Lmsr { b }, MarketType::Manual, seed, None)
}

fn resolved(seed: u64, outcome: WinningOutcome) -> Market {
    let mut m = linear(seed);
    m.resolve_market(&creator(), END + 1, Some(outcome), None).unwrap();
    m
}

#[test]
fn linear_market_prices_and_buy_cost() {
    let mut m = linear(1000);
    assert_eq!(m.pool.total_liquidity, 2000);
    assert_eq!(m.get_market_price(ShareOutcome::Yes), Ok(500));
    assert_eq!(m.get_market_price(ShareOutcome::No), Ok(500));
    assert_eq!(m.buy_shares(ShareOutcome::Yes, 60, 100), Ok(60));
    assert_eq!(m.pool.yes_shares_outstanding, 1100);
    assert_eq!(m.pool.no_shares_outstanding, 1000);
    assert_eq!(m.pool.total_liquidity, 2060);
    // The price of an outcome is the opposite side's share of the pool.
    assert_eq!(m.get_market_price(ShareOutcome::Yes), Ok(476));
    assert_eq!(m.get_market_price(ShareOutcome::No), Ok(523));
}

#[test]
fn buy_beyond_max_cost_is_refused_and_changes_nothing() {
    let mut m = linear(1000);
    assert_eq!(m.buy_shares(ShareOutcome::Yes, 59, 100), Err(MarketError::SlippageExceeded));
    assert_eq!(m.pool.yes_shares_outstanding, 1000);
    assert_eq!(m.pool.total_liquidity, 2000);
}

#[test]
fn linear_buy_then_sell_is_not_cost_neutral() {
    let mut m = linear(1000);
    let paid = m.buy_shares(ShareOutcome::Yes, u64::MAX, 100).unwrap();
    let got = m.sell_shares(ShareOutcome::Yes, 100, 0).unwrap();
    assert_eq!(paid, 60);
    // price 476 - impact 100 = 376, times 100 / 1000
    assert_eq!(got, 37);
    assert_eq!(m.pool.yes_shares_outstanding, 1000);
    assert_eq!(m.pool.total_liquidity, 2023);
}

#[test]
fn sell_price_saturates_at_zero() {
    assert_eq!(calculate_sell_payout(1000, 1000, ShareOutcome::Yes, 600, 1000), Ok(0));
    assert_eq!(calculate_sell_payout(1000, 1000, ShareOutcome::Yes, 100, 1000), Ok(40));
}

#[test]
fn price_is_clamped_to_the_band() {
    assert_eq!(calculate_price(1, 10_000, ShareOutcome::Yes), Ok(MAX_PRICE));
    assert_eq!(calculate_price(1, 10_000, ShareOutcome::No), Ok(MIN_PRICE));
    assert_eq!(calculate_price(0, 0, ShareOutcome::Yes), Err(MarketError::MathOverflow));
    assert_eq!(calculate_price(u64::MAX, 1, ShareOutcome::Yes), Err(MarketError::MathOverflow));
}

#[test]
fn unclamped_linear_prices_sum_to_precision() {
    let y = calculate_price(300, 700, ShareOutcome::Yes).unwrap();
    let n = calculate_price(300, 700, ShareOutcome::No).unwrap();
    assert_eq!((y, n), (700, 300));
    assert_eq!(y + n, PRICE_PRECISION);
    let y = calculate_price(1, 2, ShareOutcome::Yes).unwrap();
    let n = calculate_price(1, 2, ShareOutcome::No).unwrap();
    assert_eq!(y + n, PRICE_PRECISION - 1);
}

#[test]
fn linear_cost_is_non_decreasing_in_quantity() {
    let mut last = 0;
    for n in 0..3000u64 {
        let c = calculate_buy_cost(1200, 800, ShareOutcome::No, n, LIQUIDITY_PARAMETER).unwrap();
        assert!(c >= last);
        last = c;
    }
    assert_eq!(calculate_buy_cost(1000, 1000, ShareOutcome::Yes, 100, 0), Err(MarketError::DivisionByZero));
    assert_eq!(
        calculate_buy_cost(1000, 1000, ShareOutcome::Yes, u64::MAX, 1000),
        Err(MarketError::MathOverflow)
    );
}

#[test]
fn lmsr_cost_is_non_decreasing_in_quantity() {
    let curve = Curve::Lmsr { b: 1_000_000_000 };
    let mut last = 0;
    for n in (0..5_000_000u64).step_by(250_000) {
        let c = curve.cost_to_trade(300_000_000, 100_000_000, ShareOutcome::Yes, n).unwrap();
        assert!(c >= last);
        last = c;
    }
}

#[test]
fn lmsr_even_market_and_budget_search() {
    let b = 1_000_000_000;
    let mut m = lmsr(b, 0);
    assert_eq!(m.pool.total_liquidity, 693_148_000);
    assert_eq!(m.get_market_price(ShareOutcome::Yes), Ok(500_000));
    assert_eq!(m.get_market_price(ShareOutcome::No), Ok(500_000));
    let curve = m.curve;
    assert_eq!(curve.fee_on(1_000_000), 10_000);
    let n = curve.shares_for_budget(0, 0, ShareOutcome::Yes, 1_000_000).unwrap();
    assert_eq!(n, 1_981_499);
    assert!(curve.cost_to_trade(0, 0, ShareOutcome::Yes, n).unwrap() <= 990_000);
    assert!(curve.cost_to_trade(0, 0, ShareOutcome::Yes, n + 1).unwrap() > 990_000);
    assert_eq!(m.buy_with_budget(ShareOutcome::Yes, 1_000_000, 1), Ok((1_981_499, 1_000_000)));
    assert_eq!(m.pool.yes_shares_outstanding, 1_981_499);
    assert_eq!(m.pool.total_liquidity, 693_148_000 + 990_000);
    assert_eq!(m.pool.accrued_fees, 10_000);
    assert!(m.get_market_price(ShareOutcome::Yes).unwrap() > 500_000);
}

#[test]
fn lmsr_prices_sum_to_one() {
    let b = 1_000_000_000;
    for (y, n) in [(0u64, 0u64), (500_000_000, 0), (123_456_789, 987_654_321), (2_000_000_000, 10)] {
        let py = lmsr_price(y, n, b, ShareOutcome::Yes).unwrap();
        let pn = lmsr_price(y, n, b, ShareOutcome::No).unwrap();
        assert!(py + pn == 1_000_000 || py + pn == 1_000_001, "{py} + {pn}");
    }
    assert_eq!(lmsr_price(500_000_000, 0, b, ShareOutcome::Yes), Ok(622_459));
}

#[test]
fn lmsr_sell_returns_value_less_fee() {
    let mut m = lmsr(1_000_000_000, 0);
    m.buy_with_budget(ShareOutcome::Yes, 1_000_000, 0).unwrap();
    let before = m.pool;
    let got = m.sell_shares(ShareOutcome::Yes, 1_981_499, 0).unwrap();
    assert_eq!(got, 990_000 - 9_900);
    assert_eq!(m.pool.yes_shares_outstanding, 0);
    assert_eq!(m.pool.total_liquidity, before.total_liquidity - 990_000);
    assert_eq!(m.pool.accrued_fees, before.accrued_fees + 9_900);
}

#[test]
fn lmsr_seed_collateral_is_the_cost_function() {
    assert_eq!(lmsr_cost(1000, 1000, 1000), Ok(1693));
    assert_eq!(lmsr(1000, 1000).pool.total_liquidity, 1693);
    assert_eq!(lmsr_cost(1, 1, 0), Err(MarketError::DivisionByZero));
}

#[test]
fn swap_moves_value_to_the_other_outcome() {
    let mut m = lmsr(1_000_000_000, 0);
    m.buy_with_budget(ShareOutcome::Yes, 10_000_000, 0).unwrap();
    let yes_before = m.pool.yes_shares_outstanding;
    let (got, rest) = m.swap_shares(ShareOutcome::Yes, 1_000_000, 1).unwrap();
    assert!(got > 0);
    assert_eq!(m.pool.yes_shares_outstanding, yes_before - 1_000_000);
    assert_eq!(m.pool.no_shares_outstanding, got);
    assert!(rest < 1_000_000);
    let saved = m.pool;
    assert!(m.swap_shares(ShareOutcome::No, 1, u64::MAX).is_err());
    assert_eq!(m.pool, saved);
    assert_eq!(m.swap_shares(ShareOutcome::Yes, 1_000_000, u64::MAX), Err(MarketError::SlippageExceeded));
    assert_eq!(m.pool, saved);
}

#[test]
fn selling_more_than_outstanding_underflows() {
    let mut m = linear(1000);
    assert_eq!(m.sell_shares(ShareOutcome::Yes, 2000, 0), Err(MarketError::MathUnderflow));
    assert_eq!(m.pool.yes_shares_outstanding, 1000);
    let mut l = lmsr(1_000_000_000, 0);
    assert_eq!(l.sell_shares(ShareOutcome::No, 5, 0), Err(MarketError::MathUnderflow));
}

#[test]
fn zero_sized_trades_are_refused() {
    let mut m = linear(1000);
    assert_eq!(m.buy_shares(ShareOutcome::Yes, 100, 0), Err(MarketError::ZeroAmount));
    assert_eq!(m.sell_shares(ShareOutcome::Yes, 0, 0), Err(MarketError::ZeroAmount));
    assert_eq!(m.buy_with_budget(ShareOutcome::Yes, 0, 0), Err(MarketError::ZeroAmount));
}

#[test]
fn sell_below_min_payout_is_refused() {
    let mut m = linear(1000);
    assert_eq!(m.sell_shares(ShareOutcome::Yes, 100, 41), Err(MarketError::SlippageExceeded));
}

#[test]
fn creation_checks() {
    let make = |q: String, curve: Curve, t: MarketType, seed: u64, th: Option<i64>| {
        Market::create_market(creator(), creator(), q, END, t, curve, addr(3), seed, th, yes_mint(), no_mint())
    };
    let cl = Curve::ConstantLiquidity { liquidity: 1000 };
    assert_eq!(
        make("x".repeat(201), cl, MarketType::Manual, 10, None).err(),
        Some(MarketError::QuestionTooLong)
    );
    assert!(make("x".repeat(200), cl, MarketType::Manual, 10, None).is_ok());
    assert_eq!(
        make("q".to_string(), Curve::ConstantLiquidity { liquidity: 0 }, MarketType::Manual, 10, None).err(),
        Some(MarketError::NoLiquidity)
    );
    assert_eq!(
        make("q".to_string(), cl, MarketType::Oracle, 10, None).err(),
        Some(MarketError::OracleThresholdRequired)
    );
    assert_eq!(
        make("q".to_string(), cl, MarketType::Manual, u64::MAX, None).err(),
        Some(MarketError::MathOverflow)
    );
    let m = make("q".to_string(), cl, MarketType::Oracle, 10, Some(5)).unwrap();
    assert_eq!(m.lifecycle, LifecycleState::Open);
    assert_eq!(m.winning_outcome, WinningOutcome::Undecided);
    assert_eq!(m.pool.total_liquidity, 20);
}

#[test]
fn lock_pauses_trading_but_not_resolution() {
    let mut m = linear(1000);
    assert_eq!(m.lock_market(&addr(9)), Err(MarketError::UnauthorizedResolver));
    assert_eq!(m.lock_market(&creator()), Ok(()));
    assert_eq!(m.buy_shares(ShareOutcome::Yes, 100, 10), Err(MarketError::PoolLocked));
    assert_eq!(m.unlock_market(&creator()), Ok(()));
    assert_eq!(m.buy_shares(ShareOutcome::Yes, 100, 10), Ok(5));
    m.lock_market(&creator()).unwrap();
    assert_eq!(m.resolve_market(&creator(), END + 1, Some(WinningOutcome::No), None), Ok(()));
    assert_eq!(m.lifecycle, LifecycleState::Resolved);
    assert_eq!(m.unlock_market(&creator()), Err(MarketError::MarketResolved));
}

#[test]
fn trading_after_resolution_is_refused() {
    let mut m = resolved(1000, WinningOutcome::Yes);
    assert_eq!(m.buy_shares(ShareOutcome::Yes, 100, 10), Err(MarketError::MarketResolved));
    assert_eq!(m.sell_shares(ShareOutcome::Yes, 10, 0), Err(MarketError::MarketResolved));
}

#[test]
fn manual_resolution_checks() {
    let mut m = linear(1000);
    assert_eq!(
        m.resolve_market(&creator(), END, Some(WinningOutcome::Yes), None),
        Err(MarketError::MarketNotEnd)
    );
    assert_eq!(
        m.resolve_market(&addr(9), END + 1, Some(WinningOutcome::Yes), None),
        Err(MarketError::UnauthorizedResolver)
    );
    assert_eq!(m.resolve_market(&creator(), END + 1, None, None), Err(MarketError::OutcomeRequired));
    assert_eq!(
        m.resolve_market(&creator(), END + 1, Some(WinningOutcome::Undecided), None),
        Err(MarketError::InvalidOutcome)
    );
    assert_eq!(m.lifecycle, LifecycleState::Open);
    assert_eq!(m.resolve_market(&creator(), END + 1, Some(WinningOutcome::Canceled), None), Ok(()));
    assert_eq!(m.winning_outcome, WinningOutcome::Canceled);
}

#[test]
fn oracle_resolution_compares_with_the_threshold() {
    let curve = Curve::ConstantLiquidity { liquidity: 1000 };
    let now = END + 100;
    let fresh = |price: i64| Some(OracleReading { price, publish_time: now - 10 });
    let mut m = market(curve, MarketType::Oracle, 1000, Some(50_000));
    assert_eq!(m.resolve_market(&addr(9), now, None, None), Err(MarketError::InvalidOracleFeed));
    assert_eq!(m.resolve_market(&addr(9), now, None, fresh(0)), Err(MarketError::OraclePriceStale));
    let old = Some(OracleReading { price: 60_000, publish_time: now - ORACLE_GRACE_PERIOD - 1 });
    assert_eq!(m.resolve_market(&addr(9), now, None, old), Err(MarketError::OraclePriceStale));
    let future = Some(OracleReading { price: 60_000, publish_time: now + 1 });
    assert_eq!(m.resolve_market(&addr(9), now, None, future), Err(MarketError::OraclePriceStale));
    assert_eq!(m.resolve_market(&addr(9), now, None, fresh(50_000)), Ok(()));
    assert_eq!(m.winning_outcome, WinningOutcome::Yes);
    let mut m = market(curve, MarketType::Oracle, 1000, Some(50_000));
    assert_eq!(m.resolve_market(&addr(9), now, None, fresh(49_999)), Ok(()));
    assert_eq!(m.winning_outcome, WinningOutcome::No);
}

#[test]
fn resolving_twice_fails_and_keeps_the_state() {
    let mut m = linear(1000);
    assert_eq!(m.resolve_market(&creator(), END + 1, Some(WinningOutcome::Yes), None), Ok(()));
    let pool = m.pool;
    assert_eq!(
        m.resolve_market(&creator(), END + 2, Some(WinningOutcome::No), None),
        Err(MarketError::MarketAlreadyResolved)
    );
    assert_eq!(
        m.emergency_resolve_market(&creator(), END + EMERGENCY_PERIOD + 1, WinningOutcome::No),
        Err(MarketError::MarketAlreadyResolved)
    );
    assert_eq!(m.winning_outcome, WinningOutcome::Yes);
    assert_eq!(m.lifecycle, LifecycleState::Resolved);
    assert_eq!(m.pool, pool);
}

#[test]
fn emergency_resolution_waits_for_the_grace_period() {
    let mut m = linear(1000);
    let deadline = END + EMERGENCY_PERIOD;
    assert_eq!(
        m.emergency_resolve_market(&creator(), deadline, WinningOutcome::Canceled),
        Err(MarketError::EmergencyPeriodNotReached)
    );
    assert_eq!(
        m.emergency_resolve_market(&addr(9), deadline + 1, WinningOutcome::Canceled),
        Err(MarketError::UnauthorizedResolver)
    );
    assert_eq!(
        m.emergency_resolve_market(&creator(), deadline + 1, WinningOutcome::Undecided),
        Err(MarketError::InvalidOutcome)
    );
    assert_eq!(m.lifecycle, LifecycleState::Open);
    assert_eq!(m.emergency_resolve_market(&creator(), deadline + 1, WinningOutcome::Canceled), Ok(()));
    assert_eq!(m.winning_outcome, WinningOutcome::Canceled);
}

#[test]
fn emergency_resolution_ignores_the_oracle_policy() {
    let curve = Curve::ConstantLiquidity { liquidity: 1000 };
    let mut m = market(curve, MarketType::Oracle, 1000, Some(1));
    assert_eq!(
        m.emergency_resolve_market(&creator(), i64::MAX, WinningOutcome::No),
        Ok(())
    );
    assert_eq!(m.winning_outcome, WinningOutcome::No);
}

#[test]
fn canceled_market_refunds_pro_rata() {
    let mut m = resolved(1000, WinningOutcome::Canceled);
    m.pool.total_liquidity = 1800;
    assert_eq!(m.redeem_winnings(&yes_mint(), 500), Ok(450));
    assert_eq!(m.pool.yes_shares_outstanding, 500);
    assert_eq!(m.pool.total_liquidity, 1350);
}

#[test]
fn canceled_payouts_never_exceed_locked_collateral() {
    let mut m = resolved(1000, WinningOutcome::Canceled);
    m.pool.yes_shares_outstanding = 997;
    m.pool.no_shares_outstanding = 1003;
    m.pool.total_liquidity = 1999;
    let locked = m.pool.total_liquidity;
    let mut paid = 0;
    for (mint, amount) in [(yes_mint(), 333), (no_mint(), 1), (no_mint(), 1002), (yes_mint(), 664)] {
        paid += m.redeem_winnings(&mint, amount).unwrap();
    }
    assert!(paid <= locked);
    assert_eq!(paid + m.pool.total_liquidity, locked);
    assert_eq!(m.lifecycle, LifecycleState::Settled);
    assert_eq!(m.redeem_winnings(&yes_mint(), 1), Err(MarketError::InsufficientBalance));
}

#[test]
fn winning_claims_redeem_at_par_within_locked_collateral() {
    let mut m = linear(1000);
    m.buy_shares(ShareOutcome::Yes, u64::MAX, 500).unwrap();
    m.resolve_market(&creator(), END + 1, Some(WinningOutcome::Yes), None).unwrap();
    let locked = m.pool.total_liquidity;
    assert_eq!(m.redeem_winnings(&no_mint(), 10), Err(MarketError::InvalidTokenMint));
    assert_eq!(m.redeem_winnings(&yes_mint(), 0), Err(MarketError::ZeroAmount));
    assert_eq!(m.redeem_winnings(&yes_mint(), 1501), Err(MarketError::InsufficientBalance));
    let mut paid = 0;
    for amount in [700, 300, 500] {
        paid += m.redeem_winnings(&yes_mint(), amount).unwrap();
    }
    assert_eq!(paid, 1500);
    assert!(paid <= locked);
    assert_eq!(m.pool.total_liquidity, locked - 1500);
    assert_eq!(m.lifecycle, LifecycleState::Settled);
}

#[test]
fn par_redemption_stops_when_collateral_runs_out() {
    let mut m = resolved(1000, WinningOutcome::No);
    m.pool.total_liquidity = 400;
    assert_eq!(m.redeem_winnings(&no_mint(), 401), Err(MarketError::NoLiquidity));
    assert_eq!(m.redeem_winnings(&no_mint(), 400), Ok(400));
    assert_eq!(m.redeem_winnings(&no_mint(), 1), Err(MarketError::NoLiquidity));
}

#[test]
fn redeem_before_resolution_is_refused() {
    let mut m = linear(1000);
    assert_eq!(m.redeem_winnings(&yes_mint(), 1), Err(MarketError::MarketNotResolved));
    let mut c = resolved(1000, WinningOutcome::Canceled);
    assert_eq!(c.redeem_winnings(&addr(77), 1), Err(MarketError::InvalidTokenMint));
}

#[test]
fn address_equality() {
    let mut a = addr(5);
    assert!(a.equals(&addr(5)));
    a.bytes[31] = 6;
    assert!(!a.equals(&addr(5)));
}

#[test]
fn error_messages() {
    assert_eq!(MarketError::ZeroAmount.message(), "Amount cannot be zero.");
    assert_eq!(MarketError::OracleNotAvailable.message(), "Oracle data not available.");
}
