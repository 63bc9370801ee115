//! What holds of the market's state machine over every state and every
//! argument, stated on the model that the operations are verified against.

use vstd::prelude::*;
use crate::error::ERROR_MARKET_ALREADY_RESOLVED;
use crate::market::MarketView;
use crate::math_safe::{
    fee_of, lemma_fee_is_ceiling, net_of, FP_SCALE, MAX_BET_AMOUNT, MAX_SHARES,
};
use crate::monotone::lemma_solver_is_exact;
use crate::solver::lemma_search_shares_ends;

verus! {

/// An operation that fails leaves every field of the market as it was.
pub proof fn lemma_failure_changes_nothing(
    m: MarketView,
    side: u64,
    amount: u64,
    outcome: bool,
)
    ensures
        m.place_bet(side, amount).1 is Err ==> m.place_bet(side, amount).0 == m,
        m.sell_shares(side, amount).1 is Err ==> m.sell_shares(side, amount).0 == m,
        m.resolve(outcome).1 is Err ==> m.resolve(outcome).0 == m,
        m.withdraw_fees(amount).1 is Err ==> m.withdraw_fees(amount).0 == m,
{
}

/// A successful bet that mints `shares` adds the amount less its fee to the
/// pool, the fee to the fee vault, the amount to the volume and `shares` to
/// the supply of the chosen side. Pool and fee vault together grow by
/// exactly the amount, and nothing else changes.
pub proof fn lemma_bet_accounting(m: MarketView, side: u64, amount: u64)
    requires
        m.place_bet(side, amount).1 is Ok,
    ensures
        ({
            let next = m.place_bet(side, amount).0;
            let shares = m.place_bet(side, amount).1->Ok_0;
            &&& 1 <= shares <= MAX_SHARES
            &&& 1 <= fee_of(amount as int) <= amount <= MAX_BET_AMOUNT
            &&& next.pool_balance == m.pool_balance + amount - fee_of(amount as int)
            &&& next.total_fees_collected == m.total_fees_collected + fee_of(amount as int)
            &&& next.total_volume == m.total_volume + amount
            &&& next.supply(side == 1) == m.supply(side == 1) + shares
            &&& next.supply(side != 1) == m.supply(side != 1)
            &&& next.pool_balance + next.total_fees_collected == m.pool_balance
                + m.total_fees_collected + amount
            &&& next == MarketView {
                total_yes_shares: next.total_yes_shares,
                total_no_shares: next.total_no_shares,
                pool_balance: next.pool_balance,
                total_volume: next.total_volume,
                total_fees_collected: next.total_fees_collected,
                ..m
            }
        }),
{
    lemma_fee_is_ceiling(amount as int);
    lemma_search_shares_ends(
        m.total_yes_shares,
        m.total_no_shares,
        m.b,
        side == 1,
        net_of(amount as int) as u64,
        0,
        MAX_SHARES,
    );
}

/// A successful bet mints the most that the amount pays for: the numbers
/// of shares up to `MAX_SHARES` that the amount less its fee affords are
/// those up to the number minted.
pub proof fn lemma_bet_mints_the_most(m: MarketView, side: u64, amount: u64, other: u64)
    requires
        m.place_bet(side, amount).1 is Ok,
        1 <= other <= MAX_SHARES,
    ensures
        m.affords(side, amount, other) <==> other <= m.place_bet(side, amount).1->Ok_0,
{
    lemma_solver_is_exact(
        m.total_yes_shares,
        m.total_no_shares,
        m.b,
        side == 1,
        net_of(amount as int) as u64,
        other,
    );
}

/// A successful sale pays exactly what it returns out of the pool, adds the
/// fee to the fee vault and payout plus fee to the volume, and takes the
/// shares sold off the supply of the chosen side. The fee is at least one,
/// so pool and fee vault together shrink by the payout less the fee.
pub proof fn lemma_sale_accounting(m: MarketView, side: u64, shares: u64)
    requires
        m.sell_shares(side, shares).1 is Ok,
    ensures
        ({
            let next = m.sell_shares(side, shares).0;
            let payout = m.sell_shares(side, shares).1->Ok_0;
            let fee = m.calculate_sell_details(side, shares)->Ok_0.1;
            &&& m.calculate_sell_details(side, shares) == Ok::<(u64, u64), u32>((payout, fee))
            &&& 1 <= shares <= MAX_SHARES
            &&& 1 <= payout <= m.pool_balance
            &&& 1 <= fee
            &&& fee == fee_of(payout + fee)
            &&& payout + fee <= MAX_BET_AMOUNT
            &&& next.pool_balance == m.pool_balance - payout
            &&& next.total_fees_collected == m.total_fees_collected + fee
            &&& next.total_volume == m.total_volume + payout + fee
            &&& next.supply(side == 1) == m.supply(side == 1) - shares
            &&& next.supply(side != 1) == m.supply(side != 1)
            &&& next.pool_balance + next.total_fees_collected == m.pool_balance
                + m.total_fees_collected - payout + fee
            &&& next == MarketView {
                total_yes_shares: next.total_yes_shares,
                total_no_shares: next.total_no_shares,
                pool_balance: next.pool_balance,
                total_volume: next.total_volume,
                total_fees_collected: next.total_fees_collected,
                ..m
            }
        }),
{
    let gross = m.sell_quote(side == 1, shares)->Ok_0 / FP_SCALE;
    lemma_fee_is_ceiling(gross as int);
}

/// Withdrawing fees touches the fee vault alone.
pub proof fn lemma_withdrawal_accounting(m: MarketView, amount: u64)
    requires
        m.withdraw_fees(amount).1 is Ok,
    ensures
        m.withdraw_fees(amount).1 == Ok::<u64, u32>(amount),
        1 <= amount <= m.total_fees_collected,
        m.withdraw_fees(amount).0 == (MarketView {
            total_fees_collected: (m.total_fees_collected - amount) as u64,
            ..m
        }),
{
}

/// Whatever the first `resolve` returned, a second one fails with
/// `ERROR_MARKET_ALREADY_RESOLVED` and changes nothing.
pub proof fn lemma_second_resolve_fails(m: MarketView, first: bool, second: bool)
    ensures
        m.resolve(first).0.resolve(second) == (
            m.resolve(first).0,
            Err::<(), u32>(ERROR_MARKET_ALREADY_RESOLVED),
        ),
{
}

/// Resolution is terminal: on a resolved market no bet, no sale and no
/// second resolution succeeds, and nothing but the fee vault ever changes
/// again. A bet or a sale that nothing else stands against fails with
/// `ERROR_MARKET_ALREADY_RESOLVED`; one that would fail on an open market
/// fails with the same error as there.
pub proof fn lemma_resolved_is_terminal(m: MarketView, side: u64, amount: u64, outcome: bool)
    requires
        m.resolved,
    ensures
        m.place_bet(side, amount).1 is Err,
        m.place_bet(side, amount).0 == m,
        m.sell_shares(side, amount).1 is Err,
        m.sell_shares(side, amount).0 == m,
        m.resolve(outcome) == (m, Err::<(), u32>(ERROR_MARKET_ALREADY_RESOLVED)),
        m.withdraw_fees(amount).0.resolved,
        m.withdraw_fees(amount).0.outcome == m.outcome,
        (MarketView { resolved: false, ..m }).place_bet(side, amount).1 matches Err(e)
            ==> m.place_bet(side, amount).1 == Err::<u64, u32>(e),
        (MarketView { resolved: false, ..m }).place_bet(side, amount).1 is Ok ==> m.place_bet(
            side,
            amount,
        ).1 == Err::<u64, u32>(ERROR_MARKET_ALREADY_RESOLVED),
        (MarketView { resolved: false, ..m }).sell_shares(side, amount).1 matches Err(e)
            ==> m.sell_shares(side, amount).1 == Err::<u64, u32>(e),
        (MarketView { resolved: false, ..m }).sell_shares(side, amount).1 is Ok ==> m.sell_shares(
            side,
            amount,
        ).1 == Err::<u64, u32>(ERROR_MARKET_ALREADY_RESOLVED),
{
}

/// Every operation keeps a well-formed market well-formed; the schedule,
/// the title and the liquidity parameter never change, and the outcome
/// changes only when `resolve` succeeds.
pub proof fn lemma_operations_keep_well_formed(
    m: MarketView,
    side: u64,
    amount: u64,
    outcome: bool,
)
    requires
        m.wf(),
    ensures
        m.place_bet(side, amount).0.wf(),
        m.sell_shares(side, amount).0.wf(),
        m.resolve(outcome).0.wf(),
        m.withdraw_fees(amount).0.wf(),
        m.place_bet(side, amount).0.outcome == m.outcome,
        m.sell_shares(side, amount).0.outcome == m.outcome,
        m.withdraw_fees(amount).0.outcome == m.outcome,
        m.resolve(outcome).1 is Ok ==> m.resolve(outcome).0.outcome == Some(outcome),
{
}

} // verus!
