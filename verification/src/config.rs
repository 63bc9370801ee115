//! Scale and fee parameters.

use vstd::prelude::*;

verus! {

/// Prices are fixed-point numbers with this many units per whole.
pub const PRICE_PRECISION: u64 = 1_000_000;

/// Denominator of the fee rate.
pub const FEE_BASIS_POINTS: u64 = 10_000;

/// Platform fee in basis points: one percent.
pub const PLATFORM_FEE_RATE: u64 = 100;

} // verus!
