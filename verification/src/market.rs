//! The market record and its state machine.

use vstd::prelude::*;
use crate::error::{
    ERROR_BET_TOO_LARGE, ERROR_INSUFFICIENT_BALANCE, ERROR_INVALID_BET_AMOUNT,
    ERROR_INVALID_BET_TYPE, ERROR_INVALID_CALCULATION, ERROR_INVALID_MARKET_TIME,
    ERROR_INVALID_MARKET_TITLE, ERROR_MARKET_ALREADY_RESOLVED, ERROR_OVERFLOW,
};
use crate::math_safe::{
    calculate_fee_safe, calculate_no_price_lmsr, calculate_no_price_lmsr_spec,
    calculate_yes_price_lmsr, calculate_yes_price_lmsr_spec, fee_of, lmsr_cost, lmsr_cost_spec,
    lmsr_sell_no_quote, lmsr_sell_yes_quote, net_of, safe_add, safe_div_high_precision,
    safe_div_high_precision_spec, sell_quote_spec, validate_b, validate_bet_amount,
    validate_bet_amount_spec, validate_liquidity, validate_liquidity_spec, validate_shares,
    validate_shares_spec, FP_SCALE, MAX_BET_AMOUNT, MAX_LIQUIDITY, MAX_SHARES, MIN_LIQUIDITY,
};
use crate::solver::{affordable, search_shares, solve_shares};

verus! {

/// Most words a title may have.
pub const MAX_TITLE_WORDS: usize = 8;

/// One binary market: its schedule, the outstanding supply of each side,
/// the liquidity parameter, the collateral pool, the fee vault and the
/// resolution.
#[derive(Clone, Debug, PartialEq, Eq)]
pub struct MarketData {
    /// Title bytes, eight to a word, little-endian. Never interpreted.
    pub title: Vec<u64>,
    pub start_time: u64,
    pub end_time: u64,
    pub resolution_time: u64,
    /// Outstanding YES shares, the initial liquidity included.
    pub total_yes_shares: u64,
    /// Outstanding NO shares, the initial liquidity included.
    pub total_no_shares: u64,
    /// Liquidity parameter of the scoring rule.
    pub b: u64,
    /// Collateral that backs payouts.
    pub pool_balance: u64,
    /// Value traded so far: amounts bought, and payouts plus fees sold.
    pub total_volume: u64,
    pub resolved: bool,
    /// `None` until resolved; then `Some(true)` where YES won.
    pub outcome: Option<bool>,
    /// Fees collected and not yet withdrawn; no part of the pool.
    pub total_fees_collected: u64,
}

/// The mathematical value of a market record.
pub struct MarketView {
    pub title: Seq<u64>,
    pub start_time: u64,
    pub end_time: u64,
    pub resolution_time: u64,
    pub total_yes_shares: u64,
    pub total_no_shares: u64,
    pub b: u64,
    pub pool_balance: u64,
    pub total_volume: u64,
    pub resolved: bool,
    pub outcome: Option<bool>,
    pub total_fees_collected: u64,
}

impl View for MarketData {
    type V = MarketView;

    open spec fn view(&self) -> MarketView {
        MarketView {
            title: self.title@,
            start_time: self.start_time,
            end_time: self.end_time,
            resolution_time: self.resolution_time,
            total_yes_shares: self.total_yes_shares,
            total_no_shares: self.total_no_shares,
            b: self.b,
            pool_balance: self.pool_balance,
            total_volume: self.total_volume,
            resolved: self.resolved,
            outcome: self.outcome,
            total_fees_collected: self.total_fees_collected,
        }
    }
}

/// The side that a selector names: 0 is NO, 1 is YES.
pub open spec fn bet_side(bet_type: u64) -> Result<bool, u32> {
    if bet_type == 0 {
        Ok(false)
    } else if bet_type == 1 {
        Ok(true)
    } else {
        Err(ERROR_INVALID_BET_TYPE)
    }
}

/// The market that `new_with_title_u64_and_liquidity` makes of its
/// arguments, or the error with which it rejects them.
pub open spec fn new_market(
    title: Seq<u64>,
    start_time: u64,
    end_time: u64,
    resolution_time: u64,
    initial_yes_liquidity: u64,
    initial_no_liquidity: u64,
    b: u64,
) -> Result<MarketView, u32> {
    if title.len() > MAX_TITLE_WORDS {
        Err(ERROR_INVALID_MARKET_TITLE)
    } else if start_time >= end_time || end_time > resolution_time {
        Err(ERROR_INVALID_MARKET_TIME)
    } else if validate_liquidity_spec(initial_yes_liquidity) is Err {
        Err(validate_liquidity_spec(initial_yes_liquidity)->Err_0)
    } else if validate_liquidity_spec(initial_no_liquidity) is Err {
        Err(validate_liquidity_spec(initial_no_liquidity)->Err_0)
    } else if b == 0 {
        Err(ERROR_INVALID_CALCULATION)
    } else {
        Ok(
            MarketView {
                title,
                start_time,
                end_time,
                resolution_time,
                total_yes_shares: initial_yes_liquidity,
                total_no_shares: initial_no_liquidity,
                b,
                pool_balance: 0,
                total_volume: 0,
                resolved: false,
                outcome: None,
                total_fees_collected: 0,
            },
        )
    }
}

/// The value of a constructor's result.
pub open spec fn view_of_result(r: Result<MarketData, u32>) -> Result<MarketView, u32> {
    match r {
        Ok(m) => Ok(m@),
        Err(e) => Err(e),
    }
}

impl MarketView {
    /// What holds of every market made by a constructor, and after every
    /// operation on such a market.
    pub open spec fn wf(self) -> bool {
        &&& self.title.len() <= MAX_TITLE_WORDS
        &&& self.start_time < self.end_time <= self.resolution_time
        &&& self.b > 0
        &&& self.resolved <==> self.outcome is Some
    }

    /// Open for trading at `current_time`.
    pub open spec fn is_active(self, current_time: u64) -> bool {
        self.start_time <= current_time < self.end_time && !self.resolved
    }

    /// Due for resolution at `current_time`.
    pub open spec fn can_resolve(self, current_time: u64) -> bool {
        current_time >= self.resolution_time && !self.resolved
    }

    /// The outstanding supply of one side.
    pub open spec fn supply(self, is_yes: bool) -> u64 {
        if is_yes {
            self.total_yes_shares
        } else {
            self.total_no_shares
        }
    }

    /// The market's cost function at its current supplies.
    pub open spec fn cost(self) -> Result<u128, u32> {
        lmsr_cost_spec(self.total_yes_shares, self.total_no_shares, self.b)
    }

    /// Whether `bet_amount` less its fee pays for `shares` of the side that
    /// `bet_type` names: the quote for so many shares is defined and,
    /// rounded down to whole tokens, within what is left of the amount.
    pub open spec fn affords(self, bet_type: u64, bet_amount: u64, shares: u64) -> bool {
        affordable(
            self.total_yes_shares,
            self.total_no_shares,
            self.b,
            bet_type == 1,
            net_of(bet_amount as int) as u64,
            shares,
        )
    }

    /// The number of shares that `calculate_shares` finds for `bet_amount`,
    /// or the error with which it fails.
    pub open spec fn calculate_shares(self, bet_type: u64, bet_amount: u64) -> Result<u64, u32> {
        if validate_bet_amount_spec(bet_amount) is Err {
            Err(validate_bet_amount_spec(bet_amount)->Err_0)
        } else if bet_side(bet_type) is Err {
            Err(ERROR_INVALID_BET_TYPE)
        } else if self.cost() is Err {
            Err(self.cost()->Err_0)
        } else {
            let found = search_shares(
                self.total_yes_shares,
                self.total_no_shares,
                self.b,
                bet_type == 1,
                net_of(bet_amount as int) as u64,
                0,
                MAX_SHARES,
            );
            if found == 0 {
                Err(ERROR_INVALID_BET_AMOUNT)
            } else {
                Ok(found)
            }
        }
    }

    /// The quote for selling `shares` of one side back, in fixed point.
    pub open spec fn sell_quote(self, is_yes: bool, shares: u64) -> Result<u128, u32> {
        sell_quote_spec(self.total_yes_shares, self.total_no_shares, self.b, is_yes, shares)
    }

    /// The net payout and the fee that `calculate_sell_details` finds, or
    /// the error with which it fails.
    pub open spec fn calculate_sell_details(self, sell_type: u64, shares_to_sell: u64) -> Result<
        (u64, u64),
        u32,
    > {
        if validate_shares_spec(shares_to_sell) is Err {
            Err(validate_shares_spec(shares_to_sell)->Err_0)
        } else if bet_side(sell_type) is Err {
            Err(ERROR_INVALID_BET_TYPE)
        } else {
            match self.sell_quote(sell_type == 1, shares_to_sell) {
                Err(e) => Err(e),
                Ok(gross_fp) => {
                    let gross = gross_fp / FP_SCALE;
                    if gross == 0 {
                        Ok((0, 0))
                    } else if gross > MAX_BET_AMOUNT {
                        Err(ERROR_BET_TOO_LARGE)
                    } else {
                        Ok((net_of(gross as int) as u64, fee_of(gross as int) as u64))
                    }
                },
            }
        }
    }

    /// The market after `shares` of one side were minted for `bet_amount`.
    pub open spec fn after_bet(self, is_yes: bool, bet_amount: u64, shares: u64) -> MarketView {
        MarketView {
            total_yes_shares: if is_yes {
                (self.total_yes_shares + shares) as u64
            } else {
                self.total_yes_shares
            },
            total_no_shares: if is_yes {
                self.total_no_shares
            } else {
                (self.total_no_shares + shares) as u64
            },
            pool_balance: (self.pool_balance + net_of(bet_amount as int)) as u64,
            total_volume: (self.total_volume + bet_amount) as u64,
            total_fees_collected: (self.total_fees_collected + fee_of(bet_amount as int)) as u64,
            ..self
        }
    }

    /// Whether a counter would leave 64 bits when `shares` of one side are
    /// minted for `bet_amount`.
    pub open spec fn bet_overflows(self, is_yes: bool, bet_amount: u64, shares: u64) -> bool {
        ||| self.supply(is_yes) + shares > u64::MAX
        ||| self.pool_balance + net_of(bet_amount as int) > u64::MAX
        ||| self.total_volume + bet_amount > u64::MAX
        ||| self.total_fees_collected + fee_of(bet_amount as int) > u64::MAX
    }

    /// The market after `place_bet`, and what `place_bet` returns.
    pub open spec fn place_bet(self, bet_type: u64, bet_amount: u64) -> (MarketView, Result<
        u64,
        u32,
    >) {
        match self.calculate_shares(bet_type, bet_amount) {
            Err(e) => (self, Err(e)),
            Ok(shares) => if self.bet_overflows(bet_type == 1, bet_amount, shares) {
                (self, Err(ERROR_OVERFLOW))
            } else if self.resolved {
                (self, Err(ERROR_MARKET_ALREADY_RESOLVED))
            } else {
                (self.after_bet(bet_type == 1, bet_amount, shares), Ok(shares))
            },
        }
    }

    /// The market after `shares` of one side were burnt for a net `payout`
    /// and a `fee`.
    pub open spec fn after_sale(self, is_yes: bool, shares: u64, payout: u64, fee: u64) -> MarketView {
        MarketView {
            total_yes_shares: if is_yes {
                (self.total_yes_shares - shares) as u64
            } else {
                self.total_yes_shares
            },
            total_no_shares: if is_yes {
                self.total_no_shares
            } else {
                (self.total_no_shares - shares) as u64
            },
            pool_balance: (self.pool_balance - payout) as u64,
            total_volume: (self.total_volume + payout + fee) as u64,
            total_fees_collected: (self.total_fees_collected + fee) as u64,
            ..self
        }
    }

    /// The market after `sell_shares`, and what `sell_shares` returns.
    pub open spec fn sell_shares(self, sell_type: u64, shares_to_sell: u64) -> (MarketView, Result<
        u64,
        u32,
    >) {
        if shares_to_sell > self.supply(sell_type == 1) {
            (self, Err(ERROR_INSUFFICIENT_BALANCE))
        } else {
            match self.calculate_sell_details(sell_type, shares_to_sell) {
                Err(e) => (self, Err(e)),
                Ok((payout, fee)) => if payout == 0 {
                    (self, Err(ERROR_INVALID_BET_AMOUNT))
                } else if payout > self.pool_balance {
                    (self, Err(ERROR_INSUFFICIENT_BALANCE))
                } else if self.total_fees_collected + fee > u64::MAX || self.total_volume + payout
                    + fee > u64::MAX {
                    (self, Err(ERROR_OVERFLOW))
                } else if self.resolved {
                    (self, Err(ERROR_MARKET_ALREADY_RESOLVED))
                } else {
                    (self.after_sale(sell_type == 1, shares_to_sell, payout, fee), Ok(payout))
                },
            }
        }
    }

    /// The market after `resolve`, and what `resolve` returns.
    pub open spec fn resolve(self, outcome: bool) -> (MarketView, Result<(), u32>) {
        if self.resolved {
            (self, Err(ERROR_MARKET_ALREADY_RESOLVED))
        } else {
            (MarketView { resolved: true, outcome: Some(outcome), ..self }, Ok(()))
        }
    }

    /// What a holder of `yes_shares` and `no_shares` redeems: the winning
    /// side's holding times the pool over that side's supply, rounded down;
    /// nothing before resolution, from an empty pool or for a side without
    /// supply.
    pub open spec fn calculate_payout(self, yes_shares: u64, no_shares: u64) -> Result<u64, u32> {
        if !self.resolved || self.pool_balance == 0 {
            Ok(0)
        } else {
            match self.outcome {
                Some(true) => if self.total_yes_shares == 0 {
                    Ok(0)
                } else {
                    safe_div_high_precision_spec(
                        yes_shares,
                        self.pool_balance,
                        self.total_yes_shares,
                    )
                },
                Some(false) => if self.total_no_shares == 0 {
                    Ok(0)
                } else {
                    safe_div_high_precision_spec(no_shares, self.pool_balance, self.total_no_shares)
                },
                None => Ok(0),
            }
        }
    }

    /// The market after `withdraw_fees`, and what `withdraw_fees` returns.
    pub open spec fn withdraw_fees(self, amount: u64) -> (MarketView, Result<u64, u32>) {
        if amount == 0 || amount > self.total_fees_collected {
            (self, Err(ERROR_INVALID_BET_AMOUNT))
        } else {
            (
                MarketView {
                    total_fees_collected: (self.total_fees_collected - amount) as u64,
                    ..self
                },
                Ok(amount),
            )
        }
    }
}

impl MarketData {
    /// A market with a title. `ERROR_INVALID_MARKET_TITLE` for a title of
    /// more than eight words; `ERROR_INVALID_MARKET_TIME` unless
    /// `start_time < end_time <= resolution_time`; then the error of
    /// `validate_liquidity` on the YES liquidity, then on the NO liquidity;
    /// `ERROR_INVALID_CALCULATION` when `b` is zero. The market starts
    /// unresolved, with an empty pool, no volume and no fees.
    pub fn new_with_title_u64_and_liquidity(
        title: Vec<u64>,
        start_time: u64,
        end_time: u64,
        resolution_time: u64,
        initial_yes_liquidity: u64,
        initial_no_liquidity: u64,
        b: u64,
    ) -> (r: Result<Self, u32>)
        ensures
            view_of_result(r) == new_market(
                title@,
                start_time,
                end_time,
                resolution_time,
                initial_yes_liquidity,
                initial_no_liquidity,
                b,
            ),
            r matches Ok(m) ==> m@.wf() && MIN_LIQUIDITY <= m.total_yes_shares <= MAX_LIQUIDITY
                && MIN_LIQUIDITY <= m.total_no_shares <= MAX_LIQUIDITY,
    {
        if title.len() > MAX_TITLE_WORDS {
            return Err(ERROR_INVALID_MARKET_TITLE);
        }
        if start_time >= end_time {
            return Err(ERROR_INVALID_MARKET_TIME);
        }
        if end_time > resolution_time {
            return Err(ERROR_INVALID_MARKET_TIME);
        }
        validate_liquidity(initial_yes_liquidity)?;
        validate_liquidity(initial_no_liquidity)?;
        validate_b(b)?;
        Ok(
            MarketData {
                title,
                start_time,
                end_time,
                resolution_time,
                total_yes_shares: initial_yes_liquidity,
                total_no_shares: initial_no_liquidity,
                b,
                pool_balance: 0,
                total_volume: 0,
                resolved: false,
                outcome: None,
                total_fees_collected: 0,
            },
        )
    }

    /// A market without a title; otherwise as
    /// `new_with_title_u64_and_liquidity`.
    pub fn new_with_liquidity(
        start_time: u64,
        end_time: u64,
        resolution_time: u64,
        initial_yes_liquidity: u64,
        initial_no_liquidity: u64,
        b: u64,
    ) -> (r: Result<Self, u32>)
        ensures
            view_of_result(r) == new_market(
                Seq::<u64>::empty(),
                start_time,
                end_time,
                resolution_time,
                initial_yes_liquidity,
                initial_no_liquidity,
                b,
            ),
            r matches Ok(m) ==> m@.wf() && MIN_LIQUIDITY <= m.total_yes_shares <= MAX_LIQUIDITY
                && MIN_LIQUIDITY <= m.total_no_shares <= MAX_LIQUIDITY,
    {
        Self::new_with_title_u64_and_liquidity(
            Vec::new(),
            start_time,
            end_time,
            resolution_time,
            initial_yes_liquidity,
            initial_no_liquidity,
            b,
        )
    }

    /// Whether the market is open for trading at `current_time`: started,
    /// not ended, not resolved.
    pub fn is_active(&self, current_time: u64) -> (r: bool)
        ensures
            r == self@.is_active(current_time),
    {
        current_time >= self.start_time && current_time < self.end_time && !self.resolved
    }

    /// Whether the market is due for resolution at `current_time`: the
    /// resolution time has come and it is not resolved.
    pub fn can_resolve(&self, current_time: u64) -> (r: bool)
        ensures
            r == self@.can_resolve(current_time),
    {
        current_time >= self.resolution_time && !self.resolved
    }

    /// The YES price in units of `PRICE_PRECISION`.
    pub fn get_yes_price(&self) -> (r: Result<u64, u32>)
        ensures
            r == calculate_yes_price_lmsr_spec(self.total_yes_shares, self.total_no_shares, self.b),
    {
        calculate_yes_price_lmsr(self.total_yes_shares, self.total_no_shares, self.b)
    }

    /// The NO price in units of `PRICE_PRECISION`.
    pub fn get_no_price(&self) -> (r: Result<u64, u32>)
        ensures
            r == calculate_no_price_lmsr_spec(self.total_yes_shares, self.total_no_shares, self.b),
    {
        calculate_no_price_lmsr(self.total_yes_shares, self.total_no_shares, self.b)
    }

    /// The side that `bet_type` names: `false` for 0, `true` for 1,
    /// `ERROR_INVALID_BET_TYPE` for anything else.
    pub fn validate_bet_type(bet_type: u64) -> (r: Result<bool, u32>)
        ensures
            r == bet_side(bet_type),
    {
        if bet_type == 0 {
            Ok(false)
        } else if bet_type == 1 {
            Ok(true)
        } else {
            Err(ERROR_INVALID_BET_TYPE)
        }
    }

    /// The number of shares that `bet_amount` buys on one side: the largest
    /// number up to `MAX_SHARES` whose quote, rounded down to whole tokens,
    /// the amount less its fee pays for. Changes nothing.
    ///
    /// `ERROR_INVALID_BET_AMOUNT` for an amount of zero, `ERROR_BET_TOO_LARGE`
    /// above `MAX_BET_AMOUNT`, `ERROR_INVALID_BET_TYPE` for a side other
    /// than 0 or 1, the error of `lmsr_cost` where the market's own cost is
    /// undefined, and `ERROR_INVALID_BET_AMOUNT` where the amount does not
    /// buy one share. A number of shares whose quote cannot be evaluated
    /// counts as costing too much.
    pub fn calculate_shares(&self, bet_type: u64, bet_amount: u64) -> (r: Result<u64, u32>)
        ensures
            r == self@.calculate_shares(bet_type, bet_amount),
            r matches Ok(shares) ==> 1 <= shares <= MAX_SHARES && forall|other: u64|
                1 <= other <= MAX_SHARES ==> (#[trigger] self@.affords(
                    bet_type,
                    bet_amount,
                    other,
                ) <==> other <= shares),
            r == Err::<u64, u32>(ERROR_INVALID_BET_AMOUNT) && bet_amount != 0 ==> forall|
                other: u64,
            |
                1 <= other <= MAX_SHARES ==> !#[trigger] self@.affords(
                    bet_type,
                    bet_amount,
                    other,
                ),
    {
        validate_bet_amount(bet_amount)?;
        let fee: u64 = calculate_fee_safe(bet_amount)?;
        let net_amount: u64 = bet_amount - fee;
        let is_yes_bet: bool = Self::validate_bet_type(bet_type)?;
        lmsr_cost(self.total_yes_shares, self.total_no_shares, self.b)?;
        let lo: u64 = solve_shares(
            self.total_yes_shares,
            self.total_no_shares,
            self.b,
            is_yes_bet,
            net_amount,
        );
        validate_shares(lo)?;
        Ok(lo)
    }

    /// What selling `shares_to_sell` of one side would pay: the net payout
    /// and the fee, in whole tokens. The quote is rounded down to tokens,
    /// and the fee is taken off it; a quote below one token pays nothing.
    /// Changes nothing.
    ///
    /// `ERROR_INVALID_BET_AMOUNT` for no shares, `ERROR_BET_TOO_LARGE` above
    /// `MAX_SHARES`, `ERROR_INVALID_BET_TYPE` for a side other than 0 or 1,
    /// the error of the sell quote, and `ERROR_BET_TOO_LARGE` where the
    /// quote exceeds `MAX_BET_AMOUNT` tokens.
    pub fn calculate_sell_details(&self, sell_type: u64, shares_to_sell: u64) -> (r: Result<
        (u64, u64),
        u32,
    >)
        ensures
            r == self@.calculate_sell_details(sell_type, shares_to_sell),
            r matches Ok((payout, fee)) ==> payout + fee <= MAX_BET_AMOUNT && (payout + fee > 0
                ==> fee >= 1),
    {
        validate_shares(shares_to_sell)?;
        let is_yes_sell: bool = Self::validate_bet_type(sell_type)?;
        let gross_quote_fp: u128 = if is_yes_sell {
            lmsr_sell_yes_quote(
                self.total_yes_shares,
                self.total_no_shares,
                self.b,
                shares_to_sell,
            )?
        } else {
            lmsr_sell_no_quote(
                self.total_yes_shares,
                self.total_no_shares,
                self.b,
                shares_to_sell,
            )?
        };
        let gross_wide: u128 = gross_quote_fp / FP_SCALE;
        if gross_wide == 0 {
            return Ok((0, 0));
        }
        if gross_wide > MAX_BET_AMOUNT as u128 {
            return Err(ERROR_BET_TOO_LARGE);
        }
        let gross_tokens: u64 = gross_wide as u64;
        let fee: u64 = calculate_fee_safe(gross_tokens)?;
        let net_payout: u64 = gross_tokens - fee;
        Ok((net_payout, fee))
    }

    /// Buys shares of one side for `bet_amount`: mints what
    /// `calculate_shares` finds, adds the amount less its fee to the pool,
    /// the fee to the fee vault and the amount to the volume, and returns
    /// the number of shares minted.
    ///
    /// The errors of `calculate_shares` come first, then `ERROR_OVERFLOW`
    /// where a counter would leave 64 bits, and last, where nothing else
    /// stands against the bet, `ERROR_MARKET_ALREADY_RESOLVED` on a resolved
    /// market: no bet on a resolved market succeeds. On every error the
    /// market is unchanged. The market has no clock: whether it is open is
    /// for the caller to ask of `is_active`.
    pub fn place_bet(&mut self, bet_type: u64, bet_amount: u64) -> (r: Result<u64, u32>)
        ensures
            (final(self)@, r) == old(self)@.place_bet(bet_type, bet_amount),
            r is Err ==> *final(self) == *old(self),
            old(self)@.wf() ==> final(self)@.wf(),
            old(self).resolved ==> r is Err,
            r matches Ok(shares) ==> {
                &&& shares >= 1
                &&& final(self).pool_balance == old(self).pool_balance + bet_amount - fee_of(
                    bet_amount as int,
                )
                &&& final(self).total_fees_collected == old(self).total_fees_collected + fee_of(
                    bet_amount as int,
                )
                &&& final(self).total_volume == old(self).total_volume + bet_amount
                &&& final(self)@.supply(bet_type == 1) == old(self)@.supply(bet_type == 1) + shares
                &&& final(self)@.supply(bet_type != 1) == old(self)@.supply(bet_type != 1)
                &&& final(self).pool_balance + final(self).total_fees_collected == old(
                    self,
                ).pool_balance + old(self).total_fees_collected + bet_amount
            },
    {
        let shares: u64 = self.calculate_shares(bet_type, bet_amount)?;
        let fee_tokens: u64 = calculate_fee_safe(bet_amount)?;
        let net_tokens: u64 = bet_amount - fee_tokens;
        let is_yes_bet: bool = bet_type == 1;
        let supply: u64 = if is_yes_bet {
            self.total_yes_shares
        } else {
            self.total_no_shares
        };
        let new_supply: u64 = safe_add(supply, shares)?;
        let new_pool: u64 = safe_add(self.pool_balance, net_tokens)?;
        let new_volume: u64 = safe_add(self.total_volume, bet_amount)?;
        let new_fees: u64 = safe_add(self.total_fees_collected, fee_tokens)?;
        if self.resolved {
            return Err(ERROR_MARKET_ALREADY_RESOLVED);
        }
        if is_yes_bet {
            self.total_yes_shares = new_supply;
        } else {
            self.total_no_shares = new_supply;
        }
        self.pool_balance = new_pool;
        self.total_volume = new_volume;
        self.total_fees_collected = new_fees;
        Ok(shares)
    }

    /// Sells `shares_to_sell` of one side back: burns them, pays the net
    /// payout of `calculate_sell_details` out of the pool, adds the fee to
    /// the fee vault and payout plus fee to the volume, and returns the
    /// payout. Any side selector other than 1 is checked against the NO
    /// supply first.
    ///
    /// `ERROR_INSUFFICIENT_BALANCE` above the side's supply, the errors of
    /// `calculate_sell_details`, `ERROR_INVALID_BET_AMOUNT` where the payout
    /// is zero, `ERROR_INSUFFICIENT_BALANCE` where it exceeds the pool,
    /// `ERROR_OVERFLOW` where a counter would leave 64 bits, and last, where
    /// nothing else stands against the sale, `ERROR_MARKET_ALREADY_RESOLVED`
    /// on a resolved market: no sale on a resolved market succeeds. On every
    /// error the market is unchanged. Sales are not bound to the trading
    /// window.
    pub fn sell_shares(&mut self, sell_type: u64, shares_to_sell: u64) -> (r: Result<u64, u32>)
        ensures
            (final(self)@, r) == old(self)@.sell_shares(sell_type, shares_to_sell),
            r is Err ==> *final(self) == *old(self),
            old(self)@.wf() ==> final(self)@.wf(),
            old(self).resolved ==> r is Err,
            r matches Ok(payout) ==> {
                &&& payout >= 1
                &&& old(self)@.calculate_sell_details(sell_type, shares_to_sell) matches Ok(
                    (net, fee),
                )
                &&& net == payout
                &&& fee >= 1
                &&& final(self).pool_balance == old(self).pool_balance - payout
                &&& final(self).total_fees_collected == old(self).total_fees_collected + fee
                &&& final(self).total_volume == old(self).total_volume + payout + fee
                &&& final(self)@.supply(sell_type == 1) == old(self)@.supply(sell_type == 1)
                    - shares_to_sell
                &&& final(self)@.supply(sell_type != 1) == old(self)@.supply(sell_type != 1)
                &&& final(self).pool_balance + final(self).total_fees_collected == old(
                    self,
                ).pool_balance + old(self).total_fees_collected - payout + fee
            },
    {
        let is_yes_sell: bool = sell_type == 1;
        let current_shares: u64 = if is_yes_sell {
            self.total_yes_shares
        } else {
            self.total_no_shares
        };
        if shares_to_sell > current_shares {
            return Err(ERROR_INSUFFICIENT_BALANCE);
        }
        let (payout_tokens, fee_tokens) = self.calculate_sell_details(sell_type, shares_to_sell)?;
        if payout_tokens == 0 {
            return Err(ERROR_INVALID_BET_AMOUNT);
        }
        if payout_tokens > self.pool_balance {
            return Err(ERROR_INSUFFICIENT_BALANCE);
        }
        let new_fees: u64 = safe_add(self.total_fees_collected, fee_tokens)?;
        let tx_value: u64 = payout_tokens + fee_tokens;
        let new_volume: u64 = safe_add(self.total_volume, tx_value)?;
        if self.resolved {
            return Err(ERROR_MARKET_ALREADY_RESOLVED);
        }
        if is_yes_sell {
            self.total_yes_shares = current_shares - shares_to_sell;
        } else {
            self.total_no_shares = current_shares - shares_to_sell;
        }
        self.pool_balance = self.pool_balance - payout_tokens;
        self.total_fees_collected = new_fees;
        self.total_volume = new_volume;
        Ok(payout_tokens)
    }

    /// Resolves the market with `outcome`, once.
    /// `ERROR_MARKET_ALREADY_RESOLVED` on a resolved market, which stays as
    /// it is. Whether the resolution time has come is for the caller to ask
    /// of `can_resolve`.
    pub fn resolve(&mut self, outcome: bool) -> (r: Result<(), u32>)
        ensures
            (final(self)@, r) == old(self)@.resolve(outcome),
            r is Err ==> *final(self) == *old(self),
            old(self)@.wf() ==> final(self)@.wf(),
            final(self).resolved,
    {
        if self.resolved {
            return Err(ERROR_MARKET_ALREADY_RESOLVED);
        }
        self.resolved = true;
        self.outcome = Some(outcome);
        Ok(())
    }

    /// What a holder of `yes_shares` and `no_shares` redeems from a
    /// resolved market: the holding on the winning side times the pool over
    /// that side's supply, rounded down. Zero before resolution, from an
    /// empty pool and for a side without supply. `ERROR_OVERFLOW` where the
    /// quotient leaves 64 bits. Changes nothing.
    pub fn calculate_payout(&self, yes_shares: u64, no_shares: u64) -> (r: Result<u64, u32>)
        ensures
            r == self@.calculate_payout(yes_shares, no_shares),
    {
        if !self.resolved || self.pool_balance == 0 {
            return Ok(0);
        }
        match self.outcome {
            Some(true) => {
                if self.total_yes_shares == 0 {
                    return Ok(0);
                }
                safe_div_high_precision(yes_shares, self.pool_balance, self.total_yes_shares)
            },
            Some(false) => {
                if self.total_no_shares == 0 {
                    return Ok(0);
                }
                safe_div_high_precision(no_shares, self.pool_balance, self.total_no_shares)
            },
            None => Ok(0),
        }
    }

    /// Takes `amount` out of the fee vault and returns it; the pool is not
    /// touched. `ERROR_INVALID_BET_AMOUNT` for zero or more than the vault
    /// holds, with the market unchanged.
    pub fn withdraw_fees(&mut self, amount: u64) -> (r: Result<u64, u32>)
        ensures
            (final(self)@, r) == old(self)@.withdraw_fees(amount),
            r is Err ==> *final(self) == *old(self),
            old(self)@.wf() ==> final(self)@.wf(),
    {
        if amount == 0 || amount > self.total_fees_collected {
            return Err(ERROR_INVALID_BET_AMOUNT);
        }
        self.total_fees_collected = self.total_fees_collected - amount;
        Ok(amount)
    }
}

} // verus!
