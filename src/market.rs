//! The market record and its lifecycle: creation, trading, resolution and
//! redemption. Every operation validates fully before it changes anything,
//! and leaves the market untouched when it fails.
use vstd::prelude::*;
use vstd::string::StrSliceExecFns;

use vstd::arithmetic::div_mod::*;

use crate::curve::{
    as_int_result, lemma_cost_of_nothing, lemma_fee_within, lemma_search_affordable,
    shares_for_budget_spec, side, Curve, ShareOutcome,
};
use crate::error::MarketError;

verus! {

/// Delay after the end time before the authority may resolve by decree.
pub const EMERGENCY_PERIOD: i64 = 86400 * 7;

/// Largest age, in seconds, of an oracle reading that may resolve a market.
pub const ORACLE_GRACE_PERIOD: i64 = 86400 * 3;

/// Largest number of characters in a market's question.
pub const MAX_QUESTION_LEN: usize = 200;

/// An identity on the host ledger: a signer, a token mint or a feed.
#[derive(Clone, Copy, Debug, PartialEq, Eq)]
pub struct Address {
    pub bytes: [u8; 32],
}

impl Address {
    pub open spec fn same(self, other: Address) -> bool {
        self.bytes@ == other.bytes@
    }

    /// Whether the two identities are the same.
    pub fn equals(&self, other: &Address) -> (r: bool)
        ensures
            r == self.same(*other),
    {
        let mut i: usize = 0;
        while i < 32
            invariant
                0 <= i <= 32,
                self.bytes@.len() == 32,
                other.bytes@.len() == 32,
                forall|j: int| 0 <= j < i ==> self.bytes@[j] == other.bytes@[j],
            decreases 32 - i,
        {
            if self.bytes[i] != other.bytes[i] {
                return false;
            }
            i = i + 1;
        }
        assert(self.bytes@ =~= other.bytes@);
        true
    }
}

#[derive(Clone, Copy, Debug, PartialEq, Eq, Structural)]
pub enum WinningOutcome {
    Undecided,
    Yes,
    No,
    Canceled,
}

/// How a market is resolved: from a price feed, or by its authority.
#[derive(Clone, Copy, Debug, PartialEq, Eq, Structural)]
pub enum MarketType {
    Oracle,
    Manual,
}

#[derive(Clone, Copy, Debug, PartialEq, Eq, Structural)]
pub enum LifecycleState {
    Open,
    Locked,
    Resolved,
    Settled,
}

/// A price observation read from the market's feed.
#[derive(Clone, Copy, Debug, PartialEq, Eq, Structural)]
pub struct OracleReading {
    pub price: i64,
    pub publish_time: i64,
}

/// Outstanding claims, the collateral that backs them, and the fees collected.
#[derive(Clone, Copy, Debug, PartialEq, Eq, Structural)]
pub struct Pool {
    pub yes_shares_outstanding: u64,
    pub no_shares_outstanding: u64,
    pub total_liquidity: u64,
    pub accrued_fees: u64,
}

impl Pool {
    pub open spec fn shares(self, outcome: ShareOutcome) -> int {
        side(self.yes_shares_outstanding as int, self.no_shares_outstanding as int, outcome)
    }

    pub open spec fn with_shares(self, outcome: ShareOutcome, v: int) -> Pool {
        match outcome {
            ShareOutcome::Yes => Pool { yes_shares_outstanding: v as u64, ..self },
            ShareOutcome::No => Pool { no_shares_outstanding: v as u64, ..self },
        }
    }

    pub open spec fn with_locked(self, v: int) -> Pool {
        Pool { total_liquidity: v as u64, ..self }
    }

    pub open spec fn with_fees(self, v: int) -> Pool {
        Pool { accrued_fees: v as u64, ..self }
    }

    /// No claims of the winning side remain to be redeemed.
    pub open spec fn drained(self, w: WinningOutcome) -> bool {
        match w {
            WinningOutcome::Yes => self.yes_shares_outstanding == 0,
            WinningOutcome::No => self.no_shares_outstanding == 0,
            _ => self.yes_shares_outstanding == 0 && self.no_shares_outstanding == 0,
        }
    }

    fn shares_of(&self, outcome: ShareOutcome) -> (r: u64)
        ensures
            r == self.shares(outcome),
    {
        match outcome {
            ShareOutcome::Yes => self.yes_shares_outstanding,
            ShareOutcome::No => self.no_shares_outstanding,
        }
    }

    fn set_shares(&mut self, outcome: ShareOutcome, v: u64)
        ensures
            *final(self) == old(self).with_shares(outcome, v as int),
    {
        match outcome {
            ShareOutcome::Yes => self.yes_shares_outstanding = v,
            ShareOutcome::No => self.no_shares_outstanding = v,
        }
    }
}

/// Buying `n` shares of `outcome` for at most `max_cost`: the new pool and the cost.
pub open spec fn buy_step(curve: Curve, p: Pool, outcome: ShareOutcome, max_cost: int, n: int) -> Result<
    (Pool, int),
    MarketError,
> {
    if n == 0 {
        Err(MarketError::ZeroAmount)
    } else {
        match curve.buy_cost_spec(
            p.yes_shares_outstanding as int,
            p.no_shares_outstanding as int,
            outcome,
            n,
        ) {
            Err(e) => Err(e),
            Ok(c) => if c > max_cost {
                Err(MarketError::SlippageExceeded)
            } else if p.shares(outcome) + n > u64::MAX {
                Err(MarketError::MathOverflow)
            } else if p.total_liquidity + c > u64::MAX {
                Err(MarketError::MathOverflow)
            } else {
                Ok(
                    (
                        p.with_shares(outcome, p.shares(outcome) + n).with_locked(
                            p.total_liquidity + c,
                        ),
                        c,
                    ),
                )
            },
        }
    }
}

/// Selling `n` shares of `outcome` for at least `min_payout` after the fee: the
/// new pool and the seller's payout. The whole value leaves the locked
/// collateral; the fee part of it is kept as accrued fees.
pub open spec fn sell_step(curve: Curve, p: Pool, outcome: ShareOutcome, n: int, min_payout: int) -> Result<
    (Pool, int),
    MarketError,
> {
    if n == 0 {
        Err(MarketError::ZeroAmount)
    } else {
        match curve.sell_value_spec(
            p.yes_shares_outstanding as int,
            p.no_shares_outstanding as int,
            outcome,
            n,
        ) {
            Err(e) => Err(e),
            Ok(v) => {
                let fee = curve.fee_spec(v);
                if v - fee < min_payout {
                    Err(MarketError::SlippageExceeded)
                } else if p.shares(outcome) < n {
                    Err(MarketError::MathUnderflow)
                } else if p.total_liquidity < v {
                    Err(MarketError::MathUnderflow)
                } else if p.accrued_fees + fee > u64::MAX {
                    Err(MarketError::MathOverflow)
                } else {
                    Ok(
                        (
                            p.with_shares(outcome, p.shares(outcome) - n).with_locked(
                                p.total_liquidity - v,
                            ).with_fees(p.accrued_fees + fee),
                            v - fee,
                        ),
                    )
                }
            },
        }
    }
}

/// Spending `budget` on shares of `outcome`, receiving at least `min_shares`:
/// the new pool, the shares bought and the collateral paid (cost plus fee).
pub open spec fn budget_step(
    curve: Curve,
    p: Pool,
    outcome: ShareOutcome,
    budget: int,
    min_shares: int,
) -> Result<(Pool, (int, int)), MarketError> {
    if budget == 0 {
        Err(MarketError::ZeroAmount)
    } else {
        match shares_for_budget_spec(
            curve,
            p.yes_shares_outstanding as int,
            p.no_shares_outstanding as int,
            outcome,
            budget,
        ) {
            Err(e) => Err(e),
            Ok(n) => if n < min_shares {
                Err(MarketError::SlippageExceeded)
            } else if n == 0 {
                Err(MarketError::ZeroAmount)
            } else {
                match curve.buy_cost_spec(
                    p.yes_shares_outstanding as int,
                    p.no_shares_outstanding as int,
                    outcome,
                    n,
                ) {
                    Err(e) => Err(e),
                    Ok(c) => {
                        let fee = curve.fee_spec(budget);
                        if p.total_liquidity + c > u64::MAX {
                            Err(MarketError::MathOverflow)
                        } else if p.accrued_fees + fee > u64::MAX {
                            Err(MarketError::MathOverflow)
                        } else {
                            Ok(
                                (
                                    p.with_shares(outcome, p.shares(outcome) + n).with_locked(
                                        p.total_liquidity + c,
                                    ).with_fees(p.accrued_fees + fee),
                                    (n, c + fee),
                                ),
                            )
                        }
                    },
                }
            },
        }
    }
}

/// Redeeming `amount` winning claims of `outcome` at par.
pub open spec fn par_redeem(p: Pool, outcome: ShareOutcome, amount: int) -> Result<
    (Pool, int),
    MarketError,
> {
    if amount > p.shares(outcome) {
        Err(MarketError::InsufficientBalance)
    } else if amount > p.total_liquidity {
        Err(MarketError::NoLiquidity)
    } else {
        Ok(
            (
                p.with_shares(outcome, p.shares(outcome) - amount).with_locked(
                    p.total_liquidity - amount,
                ),
                amount,
            ),
        )
    }
}

/// Pro-rata refund of `amount` claims of `outcome` in a canceled market:
/// `amount * total_liquidity / (yes + no)`, rounded down.
pub open spec fn refund(p: Pool, outcome: ShareOutcome, amount: int) -> Result<
    (Pool, int),
    MarketError,
> {
    if amount > p.shares(outcome) {
        Err(MarketError::InsufficientBalance)
    } else {
        let r = amount * p.total_liquidity / (p.yes_shares_outstanding
            + p.no_shares_outstanding) as int;
        Ok(
            (
                p.with_shares(outcome, p.shares(outcome) - amount).with_locked(
                    p.total_liquidity - r,
                ),
                r,
            ),
        )
    }
}

/// A binary-outcome market.
#[derive(Debug)]
pub struct Market {
    pub creator: Address,
    pub resolution_authority: Address,
    pub question: String,
    pub end_timestamp: i64,
    pub market_type: MarketType,
    pub curve: Curve,
    pub resolution_source: Address,
    pub oracle_threshold: Option<i64>,
    pub yes_token_mint: Address,
    pub no_token_mint: Address,
    pub lifecycle: LifecycleState,
    pub winning_outcome: WinningOutcome,
    pub pool: Pool,
}

/// A trade either succeeded, changing only the pool, or failed and changed nothing.
pub open spec fn trade_done(
    before: Market,
    after: Market,
    r: Result<u64, MarketError>,
    s: Result<(Pool, int), MarketError>,
) -> bool {
    match r {
        Ok(v) => s == Ok::<(Pool, int), MarketError>((after.pool, v as int)) && after
            == before.with_pool(after.pool),
        Err(e) => s == Err::<(Pool, int), MarketError>(e) && after == before,
    }
}

impl Market {
    pub open spec fn wf(self) -> bool {
        &&& self.question@.len() <= MAX_QUESTION_LEN
        &&& self.curve.param() > 0
        &&& (self.market_type is Oracle ==> self.oracle_threshold is Some)
        &&& ((self.lifecycle is Open || self.lifecycle is Locked) <==> self.winning_outcome
            is Undecided)
    }

    pub open spec fn is_resolved(self) -> bool {
        self.lifecycle is Resolved || self.lifecycle is Settled
    }

    pub open spec fn with_pool(self, p: Pool) -> Market {
        Market { pool: p, ..self }
    }

    pub open spec fn with_resolution(self, w: WinningOutcome) -> Market {
        Market { lifecycle: LifecycleState::Resolved, winning_outcome: w, ..self }
    }

    /// The market after a redemption that left `p`: settled once no
    /// redeemable claim remains.
    pub open spec fn after_redeem(self, p: Pool) -> Market {
        Market {
            pool: p,
            lifecycle: if p.drained(self.winning_outcome) {
                LifecycleState::Settled
            } else {
                self.lifecycle
            },
            ..self
        }
    }

    /// Why trading is refused, if it is.
    pub open spec fn trade_gate(self) -> Option<MarketError> {
        match self.lifecycle {
            LifecycleState::Open => None,
            LifecycleState::Locked => Some(MarketError::PoolLocked),
            _ => Some(MarketError::MarketResolved),
        }
    }

    pub open spec fn buy_spec(self, outcome: ShareOutcome, max_cost: int, n: int) -> Result<
        (Pool, int),
        MarketError,
    > {
        match self.trade_gate() {
            Some(e) => Err(e),
            None => buy_step(self.curve, self.pool, outcome, max_cost, n),
        }
    }

    pub open spec fn sell_spec(self, outcome: ShareOutcome, n: int, min_payout: int) -> Result<
        (Pool, int),
        MarketError,
    > {
        match self.trade_gate() {
            Some(e) => Err(e),
            None => sell_step(self.curve, self.pool, outcome, n, min_payout),
        }
    }

    pub open spec fn budget_spec(self, outcome: ShareOutcome, budget: int, min_shares: int) -> Result<
        (Pool, (int, int)),
        MarketError,
    > {
        match self.trade_gate() {
            Some(e) => Err(e),
            None => budget_step(self.curve, self.pool, outcome, budget, min_shares),
        }
    }

    /// Selling `n` shares of `from` and spending the whole payout on the other
    /// outcome: the new pool, the shares received, and the part of the payout
    /// left unspent, which goes back to the trader.
    pub open spec fn swap_spec(self, from: ShareOutcome, n: int, min_shares_out: int) -> Result<
        (Pool, (int, int)),
        MarketError,
    > {
        match self.trade_gate() {
            Some(e) => Err(e),
            None => match sell_step(self.curve, self.pool, from, n, 0) {
                Err(e) => Err(e),
                Ok((p1, v)) => match budget_step(self.curve, p1, from.other(), v, min_shares_out) {
                    Err(e) => Err(e),
                    Ok((p2, (m, paid))) => Ok((p2, (m, v - paid))),
                },
            },
        }
    }

    pub open spec fn pause_spec(self, actor: Address, paused: bool) -> Result<
        LifecycleState,
        MarketError,
    > {
        if !actor.same(self.resolution_authority) {
            Err(MarketError::UnauthorizedResolver)
        } else if self.is_resolved() {
            Err(MarketError::MarketResolved)
        } else if paused {
            Ok(LifecycleState::Locked)
        } else {
            Ok(LifecycleState::Open)
        }
    }

    /// The outcome that a resolution call settles on.
    pub open spec fn resolve_spec(
        self,
        resolver: Address,
        now: int,
        manual_outcome: Option<WinningOutcome>,
        reading: Option<OracleReading>,
    ) -> Result<WinningOutcome, MarketError> {
        if self.is_resolved() {
            Err(MarketError::MarketAlreadyResolved)
        } else if now <= self.end_timestamp {
            Err(MarketError::MarketNotEnd)
        } else {
            match self.market_type {
                MarketType::Oracle => match reading {
                    None => Err(MarketError::InvalidOracleFeed),
                    Some(rd) => if rd.price <= 0 || rd.publish_time > now || now - rd.publish_time
                        > ORACLE_GRACE_PERIOD {
                        Err(MarketError::OraclePriceStale)
                    } else {
                        match self.oracle_threshold {
                            None => Err(MarketError::OracleThresholdRequired),
                            Some(t) => Ok(
                                if rd.price >= t {
                                    WinningOutcome::Yes
                                } else {
                                    WinningOutcome::No
                                },
                            ),
                        }
                    },
                },
                MarketType::Manual => if !resolver.same(self.resolution_authority) {
                    Err(MarketError::UnauthorizedResolver)
                } else {
                    match manual_outcome {
                        None => Err(MarketError::OutcomeRequired),
                        Some(o) => if o is Undecided {
                            Err(MarketError::InvalidOutcome)
                        } else {
                            Ok(o)
                        },
                    }
                },
            }
        }
    }

    pub open spec fn emergency_spec(self, resolver: Address, now: int, outcome: WinningOutcome) -> Result<
        WinningOutcome,
        MarketError,
    > {
        if self.is_resolved() {
            Err(MarketError::MarketAlreadyResolved)
        } else if outcome is Undecided {
            Err(MarketError::InvalidOutcome)
        } else if now <= self.end_timestamp + EMERGENCY_PERIOD {
            Err(MarketError::EmergencyPeriodNotReached)
        } else if !resolver.same(self.resolution_authority) {
            Err(MarketError::UnauthorizedResolver)
        } else {
            Ok(outcome)
        }
    }

    pub open spec fn redeem_spec(self, mint: Address, amount: int) -> Result<(Pool, int), MarketError> {
        if !self.is_resolved() {
            Err(MarketError::MarketNotResolved)
        } else if amount == 0 {
            Err(MarketError::ZeroAmount)
        } else {
            match self.winning_outcome {
                WinningOutcome::Undecided => Err(MarketError::MarketNotResolved),
                WinningOutcome::Yes => if !mint.same(self.yes_token_mint) {
                    Err(MarketError::InvalidTokenMint)
                } else {
                    par_redeem(self.pool, ShareOutcome::Yes, amount)
                },
                WinningOutcome::No => if !mint.same(self.no_token_mint) {
                    Err(MarketError::InvalidTokenMint)
                } else {
                    par_redeem(self.pool, ShareOutcome::No, amount)
                },
                WinningOutcome::Canceled => if mint.same(self.yes_token_mint) {
                    refund(self.pool, ShareOutcome::Yes, amount)
                } else if mint.same(self.no_token_mint) {
                    refund(self.pool, ShareOutcome::No, amount)
                } else {
                    Err(MarketError::InvalidTokenMint)
                },
            }
        }
    }
}

} // verus!

verus! {

/// What `create_market` checks, in order, and the collateral it locks.
pub open spec fn create_check(
    question_len: int,
    curve: Curve,
    market_type: MarketType,
    oracle_threshold: Option<i64>,
    initial_liquidity: int,
) -> Result<int, MarketError> {
    if question_len > MAX_QUESTION_LEN {
        Err(MarketError::QuestionTooLong)
    } else if curve.param() == 0 {
        Err(MarketError::NoLiquidity)
    } else if market_type is Oracle && oracle_threshold is None {
        Err(MarketError::OracleThresholdRequired)
    } else {
        curve.seed_collateral_spec(initial_liquidity)
    }
}

impl Market {
    pub open spec fn with_lifecycle(self, l: LifecycleState) -> Market {
        Market { lifecycle: l, ..self }
    }

    /// Opens a market seeded with `initial_liquidity` shares of each outcome;
    /// the collateral to lock is `pool.total_liquidity` of the result.
    pub fn create_market(
        creator: Address,
        resolution_authority: Address,
        question: String,
        end_timestamp: i64,
        market_type: MarketType,
        curve: Curve,
        resolution_source: Address,
        initial_liquidity: u64,
        oracle_threshold: Option<i64>,
        yes_token_mint: Address,
        no_token_mint: Address,
    ) -> (r: Result<Market, MarketError>)
        ensures
            match r {
                Ok(m) => {
                    &&& create_check(
                        question@.len() as int,
                        curve,
                        market_type,
                        oracle_threshold,
                        initial_liquidity as int,
                    ) == Ok::<int, MarketError>(m.pool.total_liquidity as int)
                    &&& m.creator == creator
                    &&& m.resolution_authority == resolution_authority
                    &&& m.question == question
                    &&& m.end_timestamp == end_timestamp
                    &&& m.market_type == market_type
                    &&& m.curve == curve
                    &&& m.resolution_source == resolution_source
                    &&& m.oracle_threshold == oracle_threshold
                    &&& m.yes_token_mint == yes_token_mint
                    &&& m.no_token_mint == no_token_mint
                    &&& m.lifecycle == LifecycleState::Open
                    &&& m.winning_outcome == WinningOutcome::Undecided
                    &&& m.pool.yes_shares_outstanding == initial_liquidity
                    &&& m.pool.no_shares_outstanding == initial_liquidity
                    &&& m.pool.accrued_fees == 0
                    &&& m.wf()
                },
                Err(e) => create_check(
                    question@.len() as int,
                    curve,
                    market_type,
                    oracle_threshold,
                    initial_liquidity as int,
                ) == Err::<int, MarketError>(e),
            },
    {
        if question.as_str().unicode_len() > MAX_QUESTION_LEN {
            return Err(MarketError::QuestionTooLong);
        }
        let param = match curve {
            Curve::ConstantLiquidity { liquidity } => liquidity,
            Curve::Lmsr { b } => b,
        };
        if param == 0 {
            return Err(MarketError::NoLiquidity);
        }
        if matches!(market_type, MarketType::Oracle) && oracle_threshold.is_none() {
            return Err(MarketError::OracleThresholdRequired);
        }
        let locked = match curve.seed_collateral(initial_liquidity) {
            Ok(c) => c,
            Err(e) => return Err(e),
        };
        Ok(
            Market {
                creator,
                resolution_authority,
                question,
                end_timestamp,
                market_type,
                curve,
                resolution_source,
                oracle_threshold,
                yes_token_mint,
                no_token_mint,
                lifecycle: LifecycleState::Open,
                winning_outcome: WinningOutcome::Undecided,
                pool: Pool {
                    yes_shares_outstanding: initial_liquidity,
                    no_shares_outstanding: initial_liquidity,
                    total_liquidity: locked,
                    accrued_fees: 0,
                },
            },
        )
    }

    /// Whether the market has been resolved.
    pub fn resolved(&self) -> (r: bool)
        ensures
            r == self.is_resolved(),
    {
        matches!(self.lifecycle, LifecycleState::Resolved | LifecycleState::Settled)
    }

    fn trade_gate_exec(&self) -> (r: Option<MarketError>)
        ensures
            r == self.trade_gate(),
    {
        match self.lifecycle {
            LifecycleState::Open => None,
            LifecycleState::Locked => Some(MarketError::PoolLocked),
            _ => Some(MarketError::MarketResolved),
        }
    }

    /// Current price of `outcome` on the market's curve.
    pub fn get_market_price(&self, outcome: ShareOutcome) -> (r: Result<u64, MarketError>)
        ensures
            as_int_result(r) == self.curve.price_spec(
                self.pool.yes_shares_outstanding as int,
                self.pool.no_shares_outstanding as int,
                outcome,
            ),
    {
        self.curve.price(self.pool.yes_shares_outstanding, self.pool.no_shares_outstanding, outcome)
    }

    /// Buys `shares_desired` shares of `outcome` for at most `max_cost`; returns
    /// the cost, which the buyer deposits into the vault.
    pub fn buy_shares(&mut self, outcome: ShareOutcome, max_cost: u64, shares_desired: u64) -> (r:
        Result<u64, MarketError>)
        ensures
            trade_done(
                *old(self),
                *final(self),
                r,
                old(self).buy_spec(outcome, max_cost as int, shares_desired as int),
            ),
            old(self).wf() ==> final(self).wf(),
    {
        if let Some(e) = self.trade_gate_exec() {
            return Err(e);
        }
        if shares_desired == 0 {
            return Err(MarketError::ZeroAmount);
        }
        let cost = match self.curve.cost_to_trade(
            self.pool.yes_shares_outstanding,
            self.pool.no_shares_outstanding,
            outcome,
            shares_desired,
        ) {
            Ok(c) => c,
            Err(e) => return Err(e),
        };
        if cost > max_cost {
            return Err(MarketError::SlippageExceeded);
        }
        let held = self.pool.shares_of(outcome);
        if held > u64::MAX - shares_desired {
            return Err(MarketError::MathOverflow);
        }
        if self.pool.total_liquidity > u64::MAX - cost {
            return Err(MarketError::MathOverflow);
        }
        self.pool.set_shares(outcome, held + shares_desired);
        self.pool.total_liquidity = self.pool.total_liquidity + cost;
        Ok(cost)
    }

    /// Sells `shares_to_sell` shares of `outcome` for at least `min_payout`;
    /// returns the payout, which the vault sends to the seller.
    pub fn sell_shares(&mut self, outcome: ShareOutcome, shares_to_sell: u64, min_payout: u64) -> (r:
        Result<u64, MarketError>)
        ensures
            trade_done(
                *old(self),
                *final(self),
                r,
                old(self).sell_spec(outcome, shares_to_sell as int, min_payout as int),
            ),
            old(self).wf() ==> final(self).wf(),
    {
        if let Some(e) = self.trade_gate_exec() {
            return Err(e);
        }
        if shares_to_sell == 0 {
            return Err(MarketError::ZeroAmount);
        }
        let value = match self.curve.sell_value(
            self.pool.yes_shares_outstanding,
            self.pool.no_shares_outstanding,
            outcome,
            shares_to_sell,
        ) {
            Ok(v) => v,
            Err(e) => return Err(e),
        };
        let fee = self.curve.fee_on(value);
        if value - fee < min_payout {
            return Err(MarketError::SlippageExceeded);
        }
        let held = self.pool.shares_of(outcome);
        if held < shares_to_sell {
            return Err(MarketError::MathUnderflow);
        }
        if self.pool.total_liquidity < value {
            return Err(MarketError::MathUnderflow);
        }
        if self.pool.accrued_fees > u64::MAX - fee {
            return Err(MarketError::MathOverflow);
        }
        self.pool.set_shares(outcome, held - shares_to_sell);
        self.pool.total_liquidity = self.pool.total_liquidity - value;
        self.pool.accrued_fees = self.pool.accrued_fees + fee;
        Ok(value - fee)
    }

    /// Spends at most `budget` on shares of `outcome`, requiring at least
    /// `min_shares`; returns the shares bought and the collateral paid.
    pub fn buy_with_budget(&mut self, outcome: ShareOutcome, budget: u64, min_shares: u64) -> (r:
        Result<(u64, u64), MarketError>)
        ensures
            match r {
                Ok((n, paid)) => old(self).budget_spec(outcome, budget as int, min_shares as int)
                    == Ok::<(Pool, (int, int)), MarketError>(
                    (final(self).pool, (n as int, paid as int)),
                ) && *final(self) == old(self).with_pool(final(self).pool),
                Err(e) => old(self).budget_spec(outcome, budget as int, min_shares as int) == Err::<
                    (Pool, (int, int)),
                    MarketError,
                >(e) && *final(self) == *old(self),
            },
            old(self).wf() ==> final(self).wf(),
    {
        if let Some(e) = self.trade_gate_exec() {
            return Err(e);
        }
        if budget == 0 {
            return Err(MarketError::ZeroAmount);
        }
        let yes = self.pool.yes_shares_outstanding;
        let no = self.pool.no_shares_outstanding;
        let n = match self.curve.shares_for_budget(yes, no, outcome, budget) {
            Ok(n) => n,
            Err(e) => return Err(e),
        };
        if n < min_shares {
            return Err(MarketError::SlippageExceeded);
        }
        if n == 0 {
            return Err(MarketError::ZeroAmount);
        }
        let cost = match self.curve.cost_to_trade(yes, no, outcome, n) {
            Ok(c) => c,
            Err(e) => return Err(e),
        };
        let fee = self.curve.fee_on(budget);
        if self.pool.total_liquidity > u64::MAX - cost {
            return Err(MarketError::MathOverflow);
        }
        if self.pool.accrued_fees > u64::MAX - fee {
            return Err(MarketError::MathOverflow);
        }
        let held = self.pool.shares_of(outcome);
        self.pool.set_shares(outcome, held + n);
        self.pool.total_liquidity = self.pool.total_liquidity + cost;
        self.pool.accrued_fees = self.pool.accrued_fees + fee;
        Ok((n, cost + fee))
    }

    /// Exchanges `shares` shares of `from` for shares of the other outcome,
    /// receiving at least `min_shares_out`; returns the shares received and the
    /// collateral left over from the sale.
    pub fn swap_shares(&mut self, from: ShareOutcome, shares: u64, min_shares_out: u64) -> (r:
        Result<(u64, u64), MarketError>)
        ensures
            match r {
                Ok((m, rest)) => old(self).swap_spec(from, shares as int, min_shares_out as int)
                    == Ok::<(Pool, (int, int)), MarketError>(
                    (final(self).pool, (m as int, rest as int)),
                ) && *final(self) == old(self).with_pool(final(self).pool),
                Err(e) => old(self).swap_spec(from, shares as int, min_shares_out as int) == Err::<
                    (Pool, (int, int)),
                    MarketError,
                >(e) && *final(self) == *old(self),
            },
            old(self).wf() ==> final(self).wf(),
    {
        let saved = self.pool;
        let value = match self.sell_shares(from, shares, 0) {
            Ok(v) => v,
            Err(e) => return Err(e),
        };
        match self.buy_with_budget(from.opposite(), value, min_shares_out) {
            Ok((m, paid)) => {
                proof {
                    lemma_budget_paid_within(self.curve, saved, from, shares as int, value as int, min_shares_out as int);
                }
                Ok((m, value - paid))
            },
            Err(e) => {
                self.pool = saved;
                Err(e)
            },
        }
    }

    fn set_paused(&mut self, actor: &Address, paused: bool) -> (r: Result<(), MarketError>)
        ensures
            match r {
                Ok(_) => old(self).pause_spec(*actor, paused) == Ok::<LifecycleState, MarketError>(
                    final(self).lifecycle,
                ) && *final(self) == old(self).with_lifecycle(final(self).lifecycle),
                Err(e) => old(self).pause_spec(*actor, paused) == Err::<LifecycleState, MarketError>(
                    e,
                ) && *final(self) == *old(self),
            },
    {
        if !actor.equals(&self.resolution_authority) {
            return Err(MarketError::UnauthorizedResolver);
        }
        if self.resolved() {
            return Err(MarketError::MarketResolved);
        }
        self.lifecycle = if paused {
            LifecycleState::Locked
        } else {
            LifecycleState::Open
        };
        Ok(())
    }

    /// Pauses trading; only the resolution authority may, and only before resolution.
    pub fn lock_market(&mut self, actor: &Address) -> (r: Result<(), MarketError>)
        ensures
            match r {
                Ok(_) => old(self).pause_spec(*actor, true) == Ok::<LifecycleState, MarketError>(
                    final(self).lifecycle,
                ) && *final(self) == old(self).with_lifecycle(LifecycleState::Locked),
                Err(e) => old(self).pause_spec(*actor, true) == Err::<LifecycleState, MarketError>(
                    e,
                ) && *final(self) == *old(self),
            },
            old(self).wf() ==> final(self).wf(),
    {
        self.set_paused(actor, true)
    }

    /// Resumes trading; only the resolution authority may, and only before resolution.
    pub fn unlock_market(&mut self, actor: &Address) -> (r: Result<(), MarketError>)
        ensures
            match r {
                Ok(_) => old(self).pause_spec(*actor, false) == Ok::<LifecycleState, MarketError>(
                    final(self).lifecycle,
                ) && *final(self) == old(self).with_lifecycle(LifecycleState::Open),
                Err(e) => old(self).pause_spec(*actor, false) == Err::<LifecycleState, MarketError>(
                    e,
                ) && *final(self) == *old(self),
            },
            old(self).wf() ==> final(self).wf(),
    {
        self.set_paused(actor, false)
    }

    /// Resolves the market after its end time: from the oracle reading for an
    /// oracle market, from `manual_outcome` given by the authority otherwise.
    pub fn resolve_market(
        &mut self,
        resolver: &Address,
        now: i64,
        manual_outcome: Option<WinningOutcome>,
        reading: Option<OracleReading>,
    ) -> (r: Result<(), MarketError>)
        ensures
            match r {
                Ok(_) => old(self).resolve_spec(*resolver, now as int, manual_outcome, reading)
                    == Ok::<WinningOutcome, MarketError>(final(self).winning_outcome)
                    && *final(self) == old(self).with_resolution(final(self).winning_outcome),
                Err(e) => old(self).resolve_spec(*resolver, now as int, manual_outcome, reading)
                    == Err::<WinningOutcome, MarketError>(e) && *final(self) == *old(self),
            },
            old(self).wf() ==> final(self).wf(),
    {
        if self.resolved() {
            return Err(MarketError::MarketAlreadyResolved);
        }
        if now <= self.end_timestamp {
            return Err(MarketError::MarketNotEnd);
        }
        let outcome = match self.market_type {
            MarketType::Oracle => {
                let rd = match reading {
                    None => return Err(MarketError::InvalidOracleFeed),
                    Some(rd) => rd,
                };
                if rd.price <= 0 || rd.publish_time > now || (now as i128) - (rd.publish_time as i128)
                    > ORACLE_GRACE_PERIOD as i128 {
                    return Err(MarketError::OraclePriceStale);
                }
                match self.oracle_threshold {
                    None => return Err(MarketError::OracleThresholdRequired),
                    Some(t) => if rd.price >= t {
                        WinningOutcome::Yes
                    } else {
                        WinningOutcome::No
                    },
                }
            },
            MarketType::Manual => {
                if !resolver.equals(&self.resolution_authority) {
                    return Err(MarketError::UnauthorizedResolver);
                }
                match manual_outcome {
                    None => return Err(MarketError::OutcomeRequired),
                    Some(o) => {
                        if matches!(o, WinningOutcome::Undecided) {
                            return Err(MarketError::InvalidOutcome);
                        }
                        o
                    },
                }
            },
        };
        self.winning_outcome = outcome;
        self.lifecycle = LifecycleState::Resolved;
        Ok(())
    }

    /// Resolves the market by decree of the authority once `EMERGENCY_PERIOD`
    /// has passed since the end time, whatever its resolution policy.
    pub fn emergency_resolve_market(&mut self, resolver: &Address, now: i64, outcome: WinningOutcome) -> (r:
        Result<(), MarketError>)
        ensures
            match r {
                Ok(_) => old(self).emergency_spec(*resolver, now as int, outcome) == Ok::<
                    WinningOutcome,
                    MarketError,
                >(outcome) && *final(self) == old(self).with_resolution(outcome),
                Err(e) => old(self).emergency_spec(*resolver, now as int, outcome) == Err::<
                    WinningOutcome,
                    MarketError,
                >(e) && *final(self) == *old(self),
            },
            old(self).wf() ==> final(self).wf(),
    {
        if self.resolved() {
            return Err(MarketError::MarketAlreadyResolved);
        }
        if matches!(outcome, WinningOutcome::Undecided) {
            return Err(MarketError::InvalidOutcome);
        }
        if (now as i128) <= (self.end_timestamp as i128) + (EMERGENCY_PERIOD as i128) {
            return Err(MarketError::EmergencyPeriodNotReached);
        }
        if !resolver.equals(&self.resolution_authority) {
            return Err(MarketError::UnauthorizedResolver);
        }
        self.winning_outcome = outcome;
        self.lifecycle = LifecycleState::Resolved;
        Ok(())
    }

    /// Redeems `amount` claims minted by `token_mint`: winning claims at par,
    /// or either claim pro rata in a canceled market. Returns the collateral
    /// that the vault pays out.
    pub fn redeem_winnings(&mut self, token_mint: &Address, amount: u64) -> (r: Result<
        u64,
        MarketError,
    >)
        ensures
            match r {
                Ok(v) => old(self).redeem_spec(*token_mint, amount as int) == Ok::<
                    (Pool, int),
                    MarketError,
                >((final(self).pool, v as int)) && *final(self) == old(self).after_redeem(
                    final(self).pool,
                ),
                Err(e) => old(self).redeem_spec(*token_mint, amount as int) == Err::<
                    (Pool, int),
                    MarketError,
                >(e) && *final(self) == *old(self),
            },
            old(self).wf() ==> final(self).wf(),
    {
        if !self.resolved() {
            return Err(MarketError::MarketNotResolved);
        }
        if amount == 0 {
            return Err(MarketError::ZeroAmount);
        }
        let (outcome, pro_rata) = match self.winning_outcome {
            WinningOutcome::Undecided => return Err(MarketError::MarketNotResolved),
            WinningOutcome::Yes => {
                if !token_mint.equals(&self.yes_token_mint) {
                    return Err(MarketError::InvalidTokenMint);
                }
                (ShareOutcome::Yes, false)
            },
            WinningOutcome::No => {
                if !token_mint.equals(&self.no_token_mint) {
                    return Err(MarketError::InvalidTokenMint);
                }
                (ShareOutcome::No, false)
            },
            WinningOutcome::Canceled => {
                if token_mint.equals(&self.yes_token_mint) {
                    (ShareOutcome::Yes, true)
                } else if token_mint.equals(&self.no_token_mint) {
                    (ShareOutcome::No, true)
                } else {
                    return Err(MarketError::InvalidTokenMint);
                }
            },
        };
        let held = self.pool.shares_of(outcome);
        if amount > held {
            return Err(MarketError::InsufficientBalance);
        }
        let locked = self.pool.total_liquidity;
        let payout: u64 = if pro_rata {
            let total: u128 = self.pool.yes_shares_outstanding as u128
                + self.pool.no_shares_outstanding as u128;
            proof {
                lemma_refund_within_locked(amount as int, locked as int, total as int);
            }
            let product: u128 = amount as u128 * locked as u128;
            (product / total) as u64
        } else {
            if amount > locked {
                return Err(MarketError::NoLiquidity);
            }
            amount
        };
        self.pool.set_shares(outcome, held - amount);
        self.pool.total_liquidity = locked - payout;
        let drained = match self.winning_outcome {
            WinningOutcome::Yes => self.pool.yes_shares_outstanding == 0,
            WinningOutcome::No => self.pool.no_shares_outstanding == 0,
            _ => self.pool.yes_shares_outstanding == 0 && self.pool.no_shares_outstanding == 0,
        };
        if drained {
            self.lifecycle = LifecycleState::Settled;
        }
        Ok(payout)
    }
}

/// What a budget purchase pays never exceeds the budget.
proof fn lemma_budget_paid_within(
    curve: Curve,
    p: Pool,
    from: ShareOutcome,
    n: int,
    v: int,
    min_out: int,
)
    requires
        sell_step(curve, p, from, n, 0) matches Ok((p1, w)) && w == v,
        budget_step(curve, sell_step(curve, p, from, n, 0)->Ok_0.0, from.other(), v, min_out) is Ok,
    ensures
        budget_step(curve, sell_step(curve, p, from, n, 0)->Ok_0.0, from.other(), v, min_out)->Ok_0.1.1
            <= v,
{
    let p1 = sell_step(curve, p, from, n, 0)->Ok_0.0;
    let y = p1.yes_shares_outstanding as int;
    let no = p1.no_shares_outstanding as int;
    let o = from.other();
    lemma_fee_within(curve, v);
    lemma_cost_of_nothing(curve, y, no, o);
    lemma_search_affordable(curve, y, no, o, v - curve.fee_spec(v), 0, u64::MAX - side(y, no, o));
}

/// A pro-rata share of the locked collateral never exceeds it.
pub(crate) proof fn lemma_refund_within_locked(amount: int, locked: int, total: int)
    requires
        0 < amount <= total,
        amount <= u64::MAX,
        0 <= locked <= u64::MAX,
        total <= u64::MAX * 2,
    ensures
        0 <= amount * locked <= u128::MAX,
        0 <= amount * locked / total <= locked,
{
    assert(0 <= amount * locked <= locked * total) by (nonlinear_arith)
        requires
            0 < amount <= total,
            0 <= locked,
    ;
    assert(amount * locked <= u64::MAX * u64::MAX) by (nonlinear_arith)
        requires
            0 < amount <= u64::MAX,
            0 <= locked <= u64::MAX,
    ;
    lemma_div_is_ordered(amount * locked, locked * total, total);
    lemma_div_by_multiple(locked, total);
    lemma_div_pos_is_pos(amount * locked, total);
}

} // verus!
