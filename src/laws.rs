//! Properties of the market's lifecycle that hold across operations.
use vstd::prelude::*;

use crate::curve::{
    lemma_cost_of_nothing, lemma_fee_within, lemma_search_affordable, side, Curve, ShareOutcome,
};
use crate::error::MarketError;
use crate::market::{
    budget_step, buy_step, sell_step, Address, Market, OracleReading, Pool,
    WinningOutcome,
};

verus! {

/// Trades keep every outstanding share count non-negative: a buy adds
/// exactly the shares bought, a sell removes exactly the shares sold from a
/// count that held at least as many, and the other outcome's count is untouched.
pub proof fn lemma_trades_keep_shares_nonnegative(
    curve: Curve,
    p: Pool,
    outcome: ShareOutcome,
    n: int,
    limit: int,
)
    requires
        n >= 0,
        limit >= 0,
    ensures
        buy_step(curve, p, outcome, limit, n) matches Ok((q, _)) ==> {
            &&& q.shares(outcome) == p.shares(outcome) + n
            &&& q.shares(outcome.other()) == p.shares(outcome.other())
        },
        sell_step(curve, p, outcome, n, limit) matches Ok((q, _)) ==> {
            &&& p.shares(outcome) - n >= 0
            &&& q.shares(outcome) == p.shares(outcome) - n
            &&& q.shares(outcome.other()) == p.shares(outcome.other())
        },
        budget_step(curve, p, outcome, limit, 0) matches Ok((q, (m, _))) ==> {
            &&& m > 0
            &&& q.shares(outcome) == p.shares(outcome) + m
            &&& q.shares(outcome.other()) == p.shares(outcome.other())
        },
{
    if budget_step(curve, p, outcome, limit, 0) is Ok {
        let y = p.yes_shares_outstanding as int;
        let no = p.no_shares_outstanding as int;
        lemma_fee_within(curve, limit);
        lemma_cost_of_nothing(curve, y, no, outcome);
        lemma_search_affordable(
            curve,
            y,
            no,
            outcome,
            limit - curve.fee_spec(limit),
            0,
            u64::MAX - side(y, no, outcome),
        );
    }
}

/// The collateral paid out by a sequence of redemption requests, each given as
/// the mint of the presented claims and their amount; refused requests pay nothing.
pub open spec fn total_redeemed(m: Market, claims: Seq<(Address, u64)>) -> int
    decreases claims.len(),
{
    if claims.len() == 0 {
        0
    } else {
        match m.redeem_spec(claims[0].0, claims[0].1 as int) {
            Ok((p, v)) => v + total_redeemed(m.after_redeem(p), claims.drop_first()),
            Err(_) => total_redeemed(m, claims.drop_first()),
        }
    }
}

/// One redemption pays out no more than the locked collateral, and takes what
/// it pays out from it.
proof fn lemma_redeem_step(m: Market, mint: Address, amount: int)
    requires
        0 <= amount <= u64::MAX,
        m.redeem_spec(mint, amount) is Ok,
    ensures
        0 <= m.redeem_spec(mint, amount)->Ok_0.1 <= m.pool.total_liquidity,
        m.redeem_spec(mint, amount)->Ok_0.0.total_liquidity == m.pool.total_liquidity
            - m.redeem_spec(mint, amount)->Ok_0.1,
{
    let p = m.pool;
    let total = p.yes_shares_outstanding + p.no_shares_outstanding;
    if m.winning_outcome is Canceled {
        crate::market::lemma_refund_within_locked(amount, p.total_liquidity as int, total as int);
    }
}

/// Whatever the outcome, par redemptions of winning claims or pro-rata
/// refunds of a canceled market, the collateral paid out by any sequence of
/// redemptions never exceeds the collateral locked when it starts.
pub proof fn lemma_redemptions_within_locked(m: Market, claims: Seq<(Address, u64)>)
    ensures
        0 <= total_redeemed(m, claims) <= m.pool.total_liquidity,
    decreases claims.len(),
{
    if claims.len() > 0 {
        let (mint, amount) = claims[0];
        match m.redeem_spec(mint, amount as int) {
            Ok((p, v)) => {
                lemma_redeem_step(m, mint, amount as int);
                lemma_redemptions_within_locked(m.after_redeem(p), claims.drop_first());
            },
            Err(_) => {
                lemma_redemptions_within_locked(m, claims.drop_first());
            },
        }
    }
}

/// A market that one resolution call resolved refuses every later resolution,
/// ordinary or emergency, with `MarketAlreadyResolved`.
pub proof fn lemma_resolve_twice_fails(
    m: Market,
    resolver: Address,
    now: int,
    manual_outcome: Option<WinningOutcome>,
    reading: Option<OracleReading>,
    resolver2: Address,
    now2: int,
    manual_outcome2: Option<WinningOutcome>,
    reading2: Option<OracleReading>,
    outcome2: WinningOutcome,
)
    requires
        m.resolve_spec(resolver, now, manual_outcome, reading) is Ok,
    ensures
        ({
            let m2 = m.with_resolution(m.resolve_spec(resolver, now, manual_outcome, reading)->Ok_0);
            &&& m2.resolve_spec(resolver2, now2, manual_outcome2, reading2) == Err::<
                WinningOutcome,
                MarketError,
            >(MarketError::MarketAlreadyResolved)
            &&& m2.emergency_spec(resolver2, now2, outcome2) == Err::<WinningOutcome, MarketError>(
                MarketError::MarketAlreadyResolved,
            )
        }),
{
}

} // verus!
