//! Error kinds, returned by value as `u32` codes.

use vstd::prelude::*;

verus! {

/// An amount or share count of zero, a sale above the outstanding supply,
/// or a purchase that mints no share.
pub const ERROR_INVALID_BET_AMOUNT: u32 = 1;

/// A side other than 0 (NO) or 1 (YES).
pub const ERROR_INVALID_BET_TYPE: u32 = 2;

/// `resolve` on a market that is already resolved, or a bet or a sale on
/// one that nothing else stands against.
pub const ERROR_MARKET_ALREADY_RESOLVED: u32 = 3;

/// A sale above the side's supply, or a payout above the pool.
pub const ERROR_INSUFFICIENT_BALANCE: u32 = 4;

/// `start >= end` or `end > resolution`.
pub const ERROR_INVALID_MARKET_TIME: u32 = 5;

/// A title of more than eight words.
pub const ERROR_INVALID_MARKET_TITLE: u32 = 6;

/// A checked addition or multiplication left its width.
pub const ERROR_OVERFLOW: u32 = 100;

/// A checked subtraction went below zero.
pub const ERROR_UNDERFLOW: u32 = 101;

/// A divisor was zero.
pub const ERROR_DIVISION_BY_ZERO: u32 = 102;

/// An amount or share count above its configured maximum.
pub const ERROR_BET_TOO_LARGE: u32 = 103;

/// A liquidity parameter of zero, or an argument outside a function's domain.
pub const ERROR_INVALID_CALCULATION: u32 = 104;

/// Initial liquidity above `MAX_LIQUIDITY`.
pub const ERROR_LIQUIDITY_TOO_HIGH: u32 = 105;

} // verus!
