//! Overflow-checked arithmetic, the fixed-point series, the scoring-rule
//! kernel built on them, the fee rule and the input validators.

use vstd::prelude::*;
use crate::error::{
    ERROR_BET_TOO_LARGE, ERROR_DIVISION_BY_ZERO, ERROR_INVALID_BET_AMOUNT,
    ERROR_INVALID_CALCULATION, ERROR_LIQUIDITY_TOO_HIGH, ERROR_OVERFLOW, ERROR_UNDERFLOW,
};
use crate::config::{FEE_BASIS_POINTS, PLATFORM_FEE_RATE, PRICE_PRECISION};
use crate::monotone::lemma_cost_is_monotone;

verus! {

/// Largest initial liquidity of one side.
pub const MAX_LIQUIDITY: u64 = 1_000_000_000_000;

/// Largest amount of one purchase, and largest gross value of one sale.
pub const MAX_BET_AMOUNT: u64 = 100_000_000;

/// Smallest initial liquidity of one side.
pub const MIN_LIQUIDITY: u64 = 1000;

/// Largest number of shares in one trade.
pub const MAX_SHARES: u64 = 1_000_000_000;

/// Units per whole of every fixed-point value.
pub const FP_SCALE: u128 = 1_000_000u128;

/// `a * b`, or `ERROR_OVERFLOW` when the product leaves 64 bits.
pub fn safe_mul(a: u64, b: u64) -> (r: Result<u64, u32>)
    ensures
        a * b <= u64::MAX ==> r == Ok::<u64, u32>((a * b) as u64),
        a * b > u64::MAX ==> r == Err::<u64, u32>(ERROR_OVERFLOW),
{
    match a.checked_mul(b) {
        Some(v) => Ok(v),
        None => Err(ERROR_OVERFLOW),
    }
}

/// `a / b` rounded down, or `ERROR_DIVISION_BY_ZERO` when `b` is zero.
pub fn safe_div(a: u64, b: u64) -> (r: Result<u64, u32>)
    ensures
        b != 0 ==> r == Ok::<u64, u32>(a / b),
        b == 0 ==> r == Err::<u64, u32>(ERROR_DIVISION_BY_ZERO),
{
    if b == 0 {
        return Err(ERROR_DIVISION_BY_ZERO);
    }
    Ok(a / b)
}

/// `a - b`, or `ERROR_UNDERFLOW` when `b` exceeds `a`.
pub fn safe_sub(a: u64, b: u64) -> (r: Result<u64, u32>)
    ensures
        a >= b ==> r == Ok::<u64, u32>((a - b) as u64),
        a < b ==> r == Err::<u64, u32>(ERROR_UNDERFLOW),
{
    match a.checked_sub(b) {
        Some(v) => Ok(v),
        None => Err(ERROR_UNDERFLOW),
    }
}

/// `a + b`, or `ERROR_OVERFLOW` when the sum leaves 64 bits.
pub fn safe_add(a: u64, b: u64) -> (r: Result<u64, u32>)
    ensures
        a + b <= u64::MAX ==> r == Ok::<u64, u32>((a + b) as u64),
        a + b > u64::MAX ==> r == Err::<u64, u32>(ERROR_OVERFLOW),
{
    match a.checked_add(b) {
        Some(v) => Ok(v),
        None => Err(ERROR_OVERFLOW),
    }
}

/// `a * b` computed in 128 bits, or `ERROR_OVERFLOW` when the product leaves
/// 64 bits.
pub fn safe_mul_high_precision(a: u64, b: u64) -> (r: Result<u64, u32>)
    ensures
        a * b <= u64::MAX ==> r == Ok::<u64, u32>((a * b) as u64),
        a * b > u64::MAX ==> r == Err::<u64, u32>(ERROR_OVERFLOW),
{
    proof {
        lemma_u64_product_fits(a, b);
    }
    let result: u128 = (a as u128) * (b as u128);
    if result > u64::MAX as u128 {
        return Err(ERROR_OVERFLOW);
    }
    Ok(result as u64)
}

/// What `safe_div_high_precision` returns: `a * b / c` rounded down, with the
/// product taken in full. A factor of zero gives zero; only a divisor of
/// zero is an error.
pub open spec fn safe_div_high_precision_spec(a: u64, b: u64, c: u64) -> Result<u64, u32> {
    if c == 0 {
        Err(ERROR_DIVISION_BY_ZERO)
    } else if (a * b) / (c as int) > u64::MAX {
        Err(ERROR_OVERFLOW)
    } else {
        Ok(((a * b) / (c as int)) as u64)
    }
}

/// `a * b / c` rounded down, with the product taken in 128 bits.
/// `ERROR_DIVISION_BY_ZERO` when `c` is zero, `ERROR_OVERFLOW` when the
/// quotient leaves 64 bits.
pub fn safe_div_high_precision(a: u64, b: u64, c: u64) -> (r: Result<u64, u32>)
    ensures
        r == safe_div_high_precision_spec(a, b, c),
{
    if c == 0 {
        return Err(ERROR_DIVISION_BY_ZERO);
    }
    proof {
        lemma_u64_product_fits(a, b);
    }
    let numerator: u128 = (a as u128) * (b as u128);
    let result: u128 = numerator / (c as u128);
    if result > u64::MAX as u128 {
        return Err(ERROR_OVERFLOW);
    }
    Ok(result as u64)
}

/// The product of two 64-bit values fits in 128 bits.
pub proof fn lemma_u64_product_fits(a: u64, b: u64)
    ensures
        0 <= a * b <= u128::MAX,
{
    assert(0 <= a * b <= 0xffff_ffff_ffff_ffff * 0xffff_ffff_ffff_ffff) by (nonlinear_arith)
        requires
            0 <= a <= 0xffff_ffff_ffff_ffff,
            0 <= b <= 0xffff_ffff_ffff_ffff,
    ;
}

/// What `fp_mul` returns: the fixed-point product `a * b / FP_SCALE`, rounded
/// down.
pub open spec fn fp_mul_spec(a: u128, b: u128) -> Result<u128, u32> {
    if a * b > u128::MAX {
        Err(ERROR_OVERFLOW)
    } else {
        Ok(((a * b) / (FP_SCALE as int)) as u128)
    }
}

/// Fixed-point product, with `ERROR_OVERFLOW` when `a * b` leaves 128 bits.
pub fn fp_mul(a: u128, b: u128) -> (r: Result<u128, u32>)
    ensures
        r == fp_mul_spec(a, b),
{
    match a.checked_mul(b) {
        Some(wide) => Ok(wide / FP_SCALE),
        None => Err(ERROR_OVERFLOW),
    }
}

/// What `fp_div` returns: the fixed-point quotient `a * FP_SCALE / b`,
/// rounded down.
pub open spec fn fp_div_spec(a: u128, b: u128) -> Result<u128, u32> {
    if b == 0 {
        Err(ERROR_DIVISION_BY_ZERO)
    } else if a * FP_SCALE > u128::MAX {
        Err(ERROR_OVERFLOW)
    } else {
        Ok(((a * FP_SCALE) / (b as int)) as u128)
    }
}

/// Fixed-point quotient, with `ERROR_DIVISION_BY_ZERO` when `b` is zero and
/// `ERROR_OVERFLOW` when `a * FP_SCALE` leaves 128 bits.
pub fn fp_div(a: u128, b: u128) -> (r: Result<u128, u32>)
    ensures
        r == fp_div_spec(a, b),
{
    if b == 0 {
        return Err(ERROR_DIVISION_BY_ZERO);
    }
    match a.checked_mul(FP_SCALE) {
        Some(wide) => Ok(wide / b),
        None => Err(ERROR_OVERFLOW),
    }
}

/// The fixed-point square `x * x / FP_SCALE`, rounded down.
pub open spec fn fp_square(x: int) -> int {
    (x * x) / (FP_SCALE as int)
}

/// The fixed-point cube: `fp_square(x) * x / FP_SCALE`, rounded down.
pub open spec fn fp_cube(x: int) -> int {
    (fp_square(x) * x) / (FP_SCALE as int)
}

/// The cubic Taylor polynomial of the exponential at a fixed-point `x`:
/// `1 + x + x^2/2 + x^3/6`, each power and each quotient rounded down.
pub open spec fn exp_series(x: int) -> int {
    FP_SCALE + x + fp_square(x) / 2 + fp_cube(x) / 6
}

/// Whether the powers of `x` up to the third can be formed in 128 bits.
pub open spec fn powers_fit(x: int) -> bool {
    x * x <= u128::MAX && fp_square(x) * x <= u128::MAX
}

/// What `fp_exp_taylor` returns.
pub open spec fn fp_exp_taylor_spec(x_fp: u128) -> Result<u128, u32> {
    if powers_fit(x_fp as int) {
        Ok(exp_series(x_fp as int) as u128)
    } else {
        Err(ERROR_OVERFLOW)
    }
}

/// Where the powers of `x` fit, `x` is below `2^64`, its square and cube are
/// at most `u128::MAX / FP_SCALE`, and the series stays so far below
/// `u128::MAX` that two of its values can be added and one of them scaled up
/// by `FP_SCALE`.
pub proof fn lemma_exp_series_bounds(x: int)
    requires
        0 <= x,
        powers_fit(x),
    ensures
        x < 0x1_0000_0000_0000_0000,
        0 <= fp_square(x) <= u128::MAX / 1_000_000,
        0 <= fp_cube(x) <= u128::MAX / 1_000_000,
        fp_square(x) * FP_SCALE <= u128::MAX,
        fp_cube(x) * FP_SCALE <= u128::MAX,
        FP_SCALE + x <= exp_series(x),
        exp_series(x) * FP_SCALE <= u128::MAX,
{
    assert(x < 0x1_0000_0000_0000_0000) by (nonlinear_arith)
        requires
            0 <= x,
            x * x <= 0xffff_ffff_ffff_ffff_ffff_ffff_ffff_ffff,
    ;
    assert(0 <= x * x) by (nonlinear_arith)
        requires
            0 <= x,
    ;
    let sq = fp_square(x);
    assert(0 <= sq * x) by (nonlinear_arith)
        requires
            0 <= x,
            0 <= sq,
    ;
}

/// The exponential of a fixed-point `x_fp` by its cubic Taylor polynomial,
/// with `ERROR_OVERFLOW` when a power of `x_fp` leaves 128 bits.
pub fn fp_exp_taylor(x_fp: u128) -> (r: Result<u128, u32>)
    ensures
        r == fp_exp_taylor_spec(x_fp),
{
    let one: u128 = FP_SCALE;
    let x2: u128 = fp_mul(x_fp, x_fp)?;
    proof {
        lemma_exp_series_bounds_square(x_fp as int);
    }
    let half: u128 = fp_div(x2, 2u128 * FP_SCALE)?;
    let x3: u128 = fp_mul(x2, x_fp)?;
    proof {
        lemma_exp_series_bounds(x_fp as int);
    }
    let sixth: u128 = fp_div(x3, 6u128 * FP_SCALE)?;
    Ok(one + x_fp + half + sixth)
}

/// Where `x * x` fits in 128 bits, the square scaled up again fits too.
proof fn lemma_exp_series_bounds_square(x: int)
    requires
        0 <= x,
        x * x <= u128::MAX,
    ensures
        0 <= fp_square(x),
        fp_square(x) * FP_SCALE <= u128::MAX,
{
    assert(0 <= x * x) by (nonlinear_arith)
        requires
            0 <= x,
    ;
}

/// The cubic series of the logarithm at `1 + z`, for a fixed-point `z`:
/// `z - z^2/2 + z^3/3`, each power and each quotient rounded down.
pub open spec fn ln_series(z: int) -> int {
    z - fp_square(z) / 2 + fp_cube(z) / 3
}

/// What `fp_ln_series` returns.
pub open spec fn fp_ln_series_spec(y_fp: u128) -> Result<u128, u32> {
    let z = y_fp - FP_SCALE;
    if y_fp < FP_SCALE {
        Err(ERROR_INVALID_CALCULATION)
    } else if !powers_fit(z) {
        Err(ERROR_OVERFLOW)
    } else if fp_square(z) / 2 > z {
        Err(ERROR_UNDERFLOW)
    } else {
        Ok(ln_series(z) as u128)
    }
}

/// Where the quadratic term of the logarithm series does not exceed the
/// linear one, `z` is below four and the series below fifteen, in units of
/// `FP_SCALE`.
pub proof fn lemma_ln_series_bounds(z: int)
    requires
        0 <= z,
        fp_square(z) / 2 <= z,
    ensures
        z < 4 * FP_SCALE,
        0 <= fp_square(z) / 2,
        0 <= fp_cube(z),
        0 <= ln_series(z) <= 15 * FP_SCALE,
{
    let sq = fp_square(z);
    assert(0 <= z * z) by (nonlinear_arith)
        requires
            0 <= z,
    ;
    if z >= 4_000_000 {
        assert(z * z >= 4_000_000 * z) by (nonlinear_arith)
            requires
                z >= 4_000_000,
        ;
        assert(false);
    }
    assert(0 <= sq * z <= 8_000_001 * 4_000_000) by (nonlinear_arith)
        requires
            0 <= z < 4_000_000,
            0 <= sq <= 8_000_001,
    ;
}

/// The logarithm of a fixed-point `y_fp` by its cubic series around one.
/// `ERROR_INVALID_CALCULATION` when `y_fp` is below one, `ERROR_OVERFLOW`
/// when a power of `y_fp - 1` leaves 128 bits, `ERROR_UNDERFLOW` when the
/// quadratic term exceeds the linear one.
pub fn fp_ln_series(y_fp: u128) -> (r: Result<u128, u32>)
    ensures
        r == fp_ln_series_spec(y_fp),
{
    if y_fp < FP_SCALE {
        return Err(ERROR_INVALID_CALCULATION);
    }
    let z: u128 = y_fp - FP_SCALE;
    let z2: u128 = fp_mul(z, z)?;
    let z3: u128 = fp_mul(z2, z)?;
    proof {
        lemma_exp_series_bounds(z as int);
    }
    let z2_over_2: u128 = fp_div(z2, 2u128 * FP_SCALE)?;
    let z3_over_3: u128 = fp_div(z3, 3u128 * FP_SCALE)?;
    if z2_over_2 > z {
        return Err(ERROR_UNDERFLOW);
    }
    proof {
        lemma_ln_series_bounds(z as int);
    }
    Ok(z - z2_over_2 + z3_over_3)
}

/// The fixed-point ratio `q / b`, rounded down.
pub open spec fn q_over_b(q: u64, b: u64) -> int {
    (q * FP_SCALE) / (b as int)
}

/// What `fp_exp_q_over_b` returns.
pub open spec fn fp_exp_q_over_b_spec(q: u64, b: u64) -> Result<u128, u32> {
    if b == 0 {
        Err(ERROR_INVALID_CALCULATION)
    } else {
        fp_exp_taylor_spec(q_over_b(q, b) as u128)
    }
}

/// The ratio `q / b` is not negative and fits in 128 bits.
pub proof fn lemma_q_over_b_bounds(q: u64, b: u64)
    requires
        b != 0,
    ensures
        0 <= q_over_b(q, b) <= q * FP_SCALE <= u128::MAX,
{
    let n: int = q * FP_SCALE;
    let d: int = b as int;
    assert(0 <= n / d <= n) by (nonlinear_arith)
        requires
            0 <= n,
            1 <= d,
    ;
}

/// The exponential series at `q / b`. `ERROR_INVALID_CALCULATION` when `b`
/// is zero, `ERROR_OVERFLOW` when a power of the ratio leaves 128 bits.
pub fn fp_exp_q_over_b(q: u64, b: u64) -> (r: Result<u128, u32>)
    ensures
        r == fp_exp_q_over_b_spec(q, b),
{
    if b == 0 {
        return Err(ERROR_INVALID_CALCULATION);
    }
    let q128: u128 = q as u128;
    let b128: u128 = b as u128;
    proof {
        lemma_q_over_b_bounds(q, b);
    }
    let q_over_b_fp: u128 = q128 * FP_SCALE / b128;
    fp_exp_taylor(q_over_b_fp)
}

/// Whether the powers of both ratios of supply to `b` fit in 128 bits.
pub open spec fn ratios_fit(q_yes: u64, q_no: u64, b: u64) -> bool {
    powers_fit(q_over_b(q_yes, b)) && powers_fit(q_over_b(q_no, b))
}

/// The argument of the logarithm series in the cost of a market: the sum
/// of the two exponentials, less one.
pub open spec fn cost_argument(q_yes: u64, q_no: u64, b: u64) -> int {
    exp_series(q_over_b(q_yes, b)) + exp_series(q_over_b(q_no, b)) - FP_SCALE
}

/// The cost of a market where it is defined:
/// `b * ln(exp(q_yes/b) + exp(q_no/b))`, by the two series.
pub open spec fn cost_value(q_yes: u64, q_no: u64, b: u64) -> int {
    b * ln_series(cost_argument(q_yes, q_no, b))
}

/// What `lmsr_cost` returns: the cost of the market, or the first of its
/// conditions that fails.
pub open spec fn lmsr_cost_spec(q_yes: u64, q_no: u64, b: u64) -> Result<u128, u32> {
    let z = cost_argument(q_yes, q_no, b);
    if b == 0 {
        Err(ERROR_INVALID_CALCULATION)
    } else if !ratios_fit(q_yes, q_no, b) || !powers_fit(z) {
        Err(ERROR_OVERFLOW)
    } else if fp_square(z) / 2 > z {
        Err(ERROR_UNDERFLOW)
    } else {
        Ok(cost_value(q_yes, q_no, b) as u128)
    }
}

/// Whether the cost of a market is defined: `b` is not zero, the powers of
/// both ratios and of the argument of the logarithm fit in 128 bits, and
/// the quadratic term of the logarithm does not exceed the linear one.
pub open spec fn cost_is_defined(q_yes: u64, q_no: u64, b: u64) -> bool {
    lmsr_cost_spec(q_yes, q_no, b) is Ok
}

/// Where the powers of the ratio of `q` to `b` fit, the exponential series
/// at the ratio is what `fp_exp_q_over_b` returns; it is at least one and so
/// small that two such values can be added, and one scaled up by
/// `FP_SCALE`, within 128 bits.
pub proof fn lemma_exp_q_over_b_bounds(q: u64, b: u64)
    requires
        b != 0,
    ensures
        0 <= q_over_b(q, b) <= u128::MAX,
        powers_fit(q_over_b(q, b)) ==> fp_exp_q_over_b_spec(q, b) == Ok::<u128, u32>(
            exp_series(q_over_b(q, b)) as u128,
        ) && FP_SCALE <= exp_series(q_over_b(q, b)) && exp_series(q_over_b(q, b)) * FP_SCALE
            <= u128::MAX,
        !powers_fit(q_over_b(q, b)) ==> fp_exp_q_over_b_spec(q, b) == Err::<u128, u32>(
            ERROR_OVERFLOW,
        ),
{
    lemma_q_over_b_bounds(q, b);
    let x = q_over_b(q, b);
    if powers_fit(x) {
        lemma_exp_series_bounds(x);
    }
}

/// Where the cost of a market is defined, the argument of its logarithm is
/// at least one and below four, and the cost is not negative and at most
/// fifteen times `b`, in units of `FP_SCALE`.
pub proof fn lemma_cost_bounds(q_yes: u64, q_no: u64, b: u64)
    requires
        cost_is_defined(q_yes, q_no, b),
    ensures
        FP_SCALE <= cost_argument(q_yes, q_no, b) < 4 * FP_SCALE,
        0 <= ln_series(cost_argument(q_yes, q_no, b)) <= 15 * FP_SCALE,
        0 <= cost_value(q_yes, q_no, b) <= 15 * FP_SCALE * b <= u128::MAX,
{
    lemma_exp_q_over_b_bounds(q_yes, b);
    lemma_exp_q_over_b_bounds(q_no, b);
    let z = cost_argument(q_yes, q_no, b);
    lemma_ln_series_bounds(z);
    let g = ln_series(z);
    assert(0 <= b * g <= 15_000_000 * b) by (nonlinear_arith)
        requires
            0 <= b,
            0 <= g <= 15_000_000,
    ;
}

/// The cost function `C(q_yes, q_no; b) = b * ln(exp(q_yes/b) + exp(q_no/b))`
/// in fixed point. `ERROR_INVALID_CALCULATION` when `b` is zero,
/// `ERROR_OVERFLOW` when a power of a ratio or of the argument of the
/// logarithm leaves 128 bits, `ERROR_UNDERFLOW` when the quadratic term of
/// the logarithm exceeds the linear one.
pub fn lmsr_cost(q_yes: u64, q_no: u64, b: u64) -> (r: Result<u128, u32>)
    ensures
        r == lmsr_cost_spec(q_yes, q_no, b),
{
    proof {
        if b != 0 {
            lemma_exp_q_over_b_bounds(q_yes, b);
            lemma_exp_q_over_b_bounds(q_no, b);
        }
    }
    let e_yes: u128 = fp_exp_q_over_b(q_yes, b)?;
    let e_no: u128 = fp_exp_q_over_b(q_no, b)?;
    let sum_e: u128 = e_yes + e_no;
    let ln_sum: u128 = fp_ln_series(sum_e)?;
    proof {
        lemma_cost_bounds(q_yes, q_no, b);
    }
    Ok((b as u128) * ln_sum)
}

/// What `lmsr_price_yes` returns: the share of the YES exponential in the sum
/// of the two, as a fixed-point value rounded down.
pub open spec fn lmsr_price_yes_spec(q_yes: u64, q_no: u64, b: u64) -> Result<u128, u32> {
    let e_yes = exp_series(q_over_b(q_yes, b));
    let e_no = exp_series(q_over_b(q_no, b));
    if b == 0 {
        Err(ERROR_INVALID_CALCULATION)
    } else if !ratios_fit(q_yes, q_no, b) {
        Err(ERROR_OVERFLOW)
    } else {
        Ok(((e_yes * FP_SCALE) / (e_yes + e_no)) as u128)
    }
}

/// What `lmsr_price_no` returns: the complement of the YES price.
pub open spec fn lmsr_price_no_spec(q_yes: u64, q_no: u64, b: u64) -> Result<u128, u32> {
    match lmsr_price_yes_spec(q_yes, q_no, b) {
        Err(e) => Err(e),
        Ok(p_yes) => Ok((FP_SCALE - p_yes) as u128),
    }
}

/// A YES price is below one.
pub proof fn lemma_price_yes_bounds(q_yes: u64, q_no: u64, b: u64)
    ensures
        lmsr_price_yes_spec(q_yes, q_no, b) matches Ok(p) ==> p < FP_SCALE,
{
    if b != 0 && ratios_fit(q_yes, q_no, b) {
        lemma_exp_q_over_b_bounds(q_yes, b);
        lemma_exp_q_over_b_bounds(q_no, b);
        let e_yes = exp_series(q_over_b(q_yes, b));
        let e_no = exp_series(q_over_b(q_no, b));
        let n: int = e_yes * FP_SCALE;
        let d: int = e_yes + e_no;
        assert(0 <= n / d < 1_000_000) by (nonlinear_arith)
            requires
                0 <= n < 1_000_000 * d,
                0 < d,
        ;
    }
}

/// The marginal price of YES, `exp(q_yes/b) / (exp(q_yes/b) + exp(q_no/b))`,
/// in fixed point. `ERROR_INVALID_CALCULATION` when `b` is zero,
/// `ERROR_OVERFLOW` when a power of `q_yes/b` or `q_no/b` leaves 128 bits.
pub fn lmsr_price_yes(q_yes: u64, q_no: u64, b: u64) -> (r: Result<u128, u32>)
    ensures
        r == lmsr_price_yes_spec(q_yes, q_no, b),
{
    proof {
        if b != 0 {
            lemma_exp_q_over_b_bounds(q_yes, b);
            lemma_exp_q_over_b_bounds(q_no, b);
        }
    }
    let e_yes: u128 = fp_exp_q_over_b(q_yes, b)?;
    let e_no: u128 = fp_exp_q_over_b(q_no, b)?;
    let denom: u128 = e_yes + e_no;
    fp_div(e_yes, denom)
}

/// The marginal price of NO: one minus the price of YES, so that the two
/// add up to exactly `FP_SCALE`. Fails as `lmsr_price_yes` does.
pub fn lmsr_price_no(q_yes: u64, q_no: u64, b: u64) -> (r: Result<u128, u32>)
    ensures
        r == lmsr_price_no_spec(q_yes, q_no, b),
{
    let p_yes: u128 = lmsr_price_yes(q_yes, q_no, b)?;
    proof {
        lemma_price_yes_bounds(q_yes, q_no, b);
    }
    Ok(FP_SCALE - p_yes)
}

/// What `lmsr_buy_yes_quote` returns: the rise of the cost,
/// `C(q_yes + delta_yes, q_no) - C(q_yes, q_no)`. It is never negative.
pub open spec fn lmsr_buy_yes_quote_spec(q_yes: u64, q_no: u64, b: u64, delta_yes: u64) -> Result<
    u128,
    u32,
> {
    if lmsr_cost_spec(q_yes, q_no, b) is Err {
        lmsr_cost_spec(q_yes, q_no, b)
    } else if q_yes + delta_yes > u64::MAX {
        Err(ERROR_OVERFLOW)
    } else if lmsr_cost_spec((q_yes + delta_yes) as u64, q_no, b) is Err {
        lmsr_cost_spec((q_yes + delta_yes) as u64, q_no, b)
    } else {
        Ok(
            (cost_value((q_yes + delta_yes) as u64, q_no, b) - cost_value(q_yes, q_no, b)) as u128,
        )
    }
}

/// What `lmsr_buy_no_quote` returns: the rise of the cost,
/// `C(q_yes, q_no + delta_no) - C(q_yes, q_no)`. It is never negative.
pub open spec fn lmsr_buy_no_quote_spec(q_yes: u64, q_no: u64, b: u64, delta_no: u64) -> Result<
    u128,
    u32,
> {
    if lmsr_cost_spec(q_yes, q_no, b) is Err {
        lmsr_cost_spec(q_yes, q_no, b)
    } else if q_no + delta_no > u64::MAX {
        Err(ERROR_OVERFLOW)
    } else if lmsr_cost_spec(q_yes, (q_no + delta_no) as u64, b) is Err {
        lmsr_cost_spec(q_yes, (q_no + delta_no) as u64, b)
    } else {
        Ok((cost_value(q_yes, (q_no + delta_no) as u64, b) - cost_value(q_yes, q_no, b)) as u128)
    }
}

/// What `lmsr_sell_yes_quote` returns: the fall of the cost,
/// `C(q_yes, q_no) - C(q_yes - s_yes, q_no)`. With the smaller supply the
/// cost stays defined, and it is not greater.
pub open spec fn lmsr_sell_yes_quote_spec(q_yes: u64, q_no: u64, b: u64, s_yes: u64) -> Result<
    u128,
    u32,
> {
    if s_yes > q_yes {
        Err(ERROR_INVALID_BET_AMOUNT)
    } else if lmsr_cost_spec(q_yes, q_no, b) is Err {
        lmsr_cost_spec(q_yes, q_no, b)
    } else {
        Ok((cost_value(q_yes, q_no, b) - cost_value((q_yes - s_yes) as u64, q_no, b)) as u128)
    }
}

/// What `lmsr_sell_no_quote` returns: the fall of the cost,
/// `C(q_yes, q_no) - C(q_yes, q_no - s_no)`.
pub open spec fn lmsr_sell_no_quote_spec(q_yes: u64, q_no: u64, b: u64, s_no: u64) -> Result<
    u128,
    u32,
> {
    if s_no > q_no {
        Err(ERROR_INVALID_BET_AMOUNT)
    } else if lmsr_cost_spec(q_yes, q_no, b) is Err {
        lmsr_cost_spec(q_yes, q_no, b)
    } else {
        Ok((cost_value(q_yes, q_no, b) - cost_value(q_yes, (q_no - s_no) as u64, b)) as u128)
    }
}

/// The quote for buying `delta` shares of one side, in fixed point.
pub open spec fn buy_quote_spec(q_yes: u64, q_no: u64, b: u64, is_yes: bool, delta: u64) -> Result<
    u128,
    u32,
> {
    if is_yes {
        lmsr_buy_yes_quote_spec(q_yes, q_no, b, delta)
    } else {
        lmsr_buy_no_quote_spec(q_yes, q_no, b, delta)
    }
}

/// The quote for selling `shares` of one side back, in fixed point.
pub open spec fn sell_quote_spec(q_yes: u64, q_no: u64, b: u64, is_yes: bool, shares: u64) -> Result<
    u128,
    u32,
> {
    if is_yes {
        lmsr_sell_yes_quote_spec(q_yes, q_no, b, shares)
    } else {
        lmsr_sell_no_quote_spec(q_yes, q_no, b, shares)
    }
}

/// The cost of buying `delta_yes` YES shares, in fixed point: the rise of
/// the cost of the market. The errors of `lmsr_cost` on the market as it
/// is, `ERROR_OVERFLOW` when the supply would leave 64 bits, and the errors
/// of `lmsr_cost` on the market after the purchase.
pub fn lmsr_buy_yes_quote(q_yes: u64, q_no: u64, b: u64, delta_yes: u64) -> (r: Result<u128, u32>)
    ensures
        r == lmsr_buy_yes_quote_spec(q_yes, q_no, b, delta_yes),
{
    let c_before: u128 = lmsr_cost(q_yes, q_no, b)?;
    let q_after: u64 = safe_add(q_yes, delta_yes)?;
    let c_after: u128 = lmsr_cost(q_after, q_no, b)?;
    proof {
        lemma_cost_is_monotone(q_yes, q_no, q_after, q_no, b);
    }
    Ok(c_after - c_before)
}

/// The cost of buying `delta_no` NO shares, in fixed point. Fails as
/// `lmsr_buy_yes_quote` does.
pub fn lmsr_buy_no_quote(q_yes: u64, q_no: u64, b: u64, delta_no: u64) -> (r: Result<u128, u32>)
    ensures
        r == lmsr_buy_no_quote_spec(q_yes, q_no, b, delta_no),
{
    let c_before: u128 = lmsr_cost(q_yes, q_no, b)?;
    let q_after: u64 = safe_add(q_no, delta_no)?;
    let c_after: u128 = lmsr_cost(q_yes, q_after, b)?;
    proof {
        lemma_cost_is_monotone(q_yes, q_no, q_yes, q_after, b);
    }
    Ok(c_after - c_before)
}

/// The payout for selling `s_yes` YES shares back, in fixed point: the fall
/// of the cost of the market. `ERROR_INVALID_BET_AMOUNT` when `s_yes`
/// exceeds `q_yes`; the errors of `lmsr_cost` on the market as it is.
pub fn lmsr_sell_yes_quote(q_yes: u64, q_no: u64, b: u64, s_yes: u64) -> (r: Result<u128, u32>)
    ensures
        r == lmsr_sell_yes_quote_spec(q_yes, q_no, b, s_yes),
{
    if s_yes > q_yes {
        return Err(ERROR_INVALID_BET_AMOUNT);
    }
    let c_before: u128 = lmsr_cost(q_yes, q_no, b)?;
    proof {
        lemma_cost_is_monotone((q_yes - s_yes) as u64, q_no, q_yes, q_no, b);
    }
    let c_after: u128 = lmsr_cost(q_yes - s_yes, q_no, b)?;
    Ok(c_before - c_after)
}

/// The payout for selling `s_no` NO shares back, in fixed point. Fails as
/// `lmsr_sell_yes_quote` does.
pub fn lmsr_sell_no_quote(q_yes: u64, q_no: u64, b: u64, s_no: u64) -> (r: Result<u128, u32>)
    ensures
        r == lmsr_sell_no_quote_spec(q_yes, q_no, b, s_no),
{
    if s_no > q_no {
        return Err(ERROR_INVALID_BET_AMOUNT);
    }
    let c_before: u128 = lmsr_cost(q_yes, q_no, b)?;
    proof {
        lemma_cost_is_monotone(q_yes, (q_no - s_no) as u64, q_yes, q_no, b);
    }
    let c_after: u128 = lmsr_cost(q_yes, q_no - s_no, b)?;
    Ok(c_before - c_after)
}

/// What `calculate_yes_price_lmsr` returns.
pub open spec fn calculate_yes_price_lmsr_spec(q_yes: u64, q_no: u64, b: u64) -> Result<u64, u32> {
    match lmsr_price_yes_spec(q_yes, q_no, b) {
        Err(e) => Err(e),
        Ok(p) => Ok(p as u64),
    }
}

/// What `calculate_no_price_lmsr` returns.
pub open spec fn calculate_no_price_lmsr_spec(q_yes: u64, q_no: u64, b: u64) -> Result<u64, u32> {
    match lmsr_price_no_spec(q_yes, q_no, b) {
        Err(e) => Err(e),
        Ok(p) => Ok(p as u64),
    }
}

/// The two prices are defined on the same markets: those with a `b` that
/// is not zero on which the powers of both ratios fit in 128 bits. Where
/// they are defined they add up to exactly one, in fixed point and in units
/// of `PRICE_PRECISION` alike.
pub proof fn lemma_prices_sum_to_one(q_yes: u64, q_no: u64, b: u64)
    ensures
        lmsr_price_yes_spec(q_yes, q_no, b) is Ok <==> b != 0 && ratios_fit(q_yes, q_no, b),
        lmsr_price_no_spec(q_yes, q_no, b) is Ok <==> lmsr_price_yes_spec(q_yes, q_no, b) is Ok,
        calculate_yes_price_lmsr_spec(q_yes, q_no, b) is Ok <==> lmsr_price_yes_spec(
            q_yes,
            q_no,
            b,
        ) is Ok,
        calculate_no_price_lmsr_spec(q_yes, q_no, b) is Ok <==> lmsr_price_yes_spec(
            q_yes,
            q_no,
            b,
        ) is Ok,
        lmsr_price_yes_spec(q_yes, q_no, b) is Ok ==> lmsr_price_yes_spec(q_yes, q_no, b)->Ok_0
            + lmsr_price_no_spec(q_yes, q_no, b)->Ok_0 == FP_SCALE,
        lmsr_price_yes_spec(q_yes, q_no, b) is Ok ==> calculate_yes_price_lmsr_spec(
            q_yes,
            q_no,
            b,
        )->Ok_0 + calculate_no_price_lmsr_spec(q_yes, q_no, b)->Ok_0 == PRICE_PRECISION,
{
    lemma_price_yes_bounds(q_yes, q_no, b);
}

/// The YES price in units of `PRICE_PRECISION`, which equals `FP_SCALE`.
/// Fails as `lmsr_price_yes` does.
pub fn calculate_yes_price_lmsr(q_yes: u64, q_no: u64, b: u64) -> (r: Result<u64, u32>)
    ensures
        r == calculate_yes_price_lmsr_spec(q_yes, q_no, b),
        r matches Ok(p) ==> p < PRICE_PRECISION,
{
    let p_yes_fp: u128 = lmsr_price_yes(q_yes, q_no, b)?;
    proof {
        lemma_price_yes_bounds(q_yes, q_no, b);
    }
    Ok(p_yes_fp as u64)
}

/// The NO price in units of `PRICE_PRECISION`. Fails as `lmsr_price_yes`
/// does.
pub fn calculate_no_price_lmsr(q_yes: u64, q_no: u64, b: u64) -> (r: Result<u64, u32>)
    ensures
        r == calculate_no_price_lmsr_spec(q_yes, q_no, b),
        r matches Ok(p) ==> 0 < p <= PRICE_PRECISION,
{
    let p_no_fp: u128 = lmsr_price_no(q_yes, q_no, b)?;
    proof {
        lemma_price_yes_bounds(q_yes, q_no, b);
    }
    Ok(p_no_fp as u64)
}

/// The platform fee on `amount`: `amount * PLATFORM_FEE_RATE /
/// FEE_BASIS_POINTS`, rounded up.
pub open spec fn fee_of(amount: int) -> int {
    (amount * PLATFORM_FEE_RATE + FEE_BASIS_POINTS - 1) / (FEE_BASIS_POINTS as int)
}

/// What is left of `amount` after the fee.
pub open spec fn net_of(amount: int) -> int {
    amount - fee_of(amount)
}

/// The fee is the least whole number of units that is not below the exact
/// rate; it is at least one on every positive amount and never above the
/// amount.
pub proof fn lemma_fee_is_ceiling(amount: int)
    requires
        0 <= amount,
    ensures
        fee_of(amount) * FEE_BASIS_POINTS >= amount * PLATFORM_FEE_RATE,
        (fee_of(amount) - 1) * FEE_BASIS_POINTS < amount * PLATFORM_FEE_RATE,
        amount > 0 ==> fee_of(amount) >= 1,
        amount == 0 ==> fee_of(amount) == 0,
        fee_of(amount) <= amount,
{
}

/// What `calculate_fee_safe` returns.
pub open spec fn calculate_fee_safe_spec(amount: u64) -> Result<u64, u32> {
    if amount > MAX_BET_AMOUNT {
        Err(ERROR_BET_TOO_LARGE)
    } else {
        Ok(fee_of(amount as int) as u64)
    }
}

/// The platform fee on `amount`, rounded up so that no positive amount
/// trades free. `ERROR_BET_TOO_LARGE` when `amount` exceeds `MAX_BET_AMOUNT`.
pub fn calculate_fee_safe(amount: u64) -> (r: Result<u64, u32>)
    ensures
        r == calculate_fee_safe_spec(amount),
        r matches Ok(fee) ==> fee <= amount && (amount > 0 ==> fee >= 1),
{
    if amount > MAX_BET_AMOUNT {
        return Err(ERROR_BET_TOO_LARGE);
    }
    proof {
        lemma_fee_is_ceiling(amount as int);
    }
    let numerator: u128 = (amount as u128) * (PLATFORM_FEE_RATE as u128);
    let rounded_numerator: u128 = numerator + ((FEE_BASIS_POINTS - 1) as u128);
    let result: u128 = rounded_numerator / (FEE_BASIS_POINTS as u128);
    Ok(result as u64)
}

/// What `calculate_net_amount_safe` returns.
pub open spec fn calculate_net_amount_safe_spec(bet_amount: u64) -> Result<u64, u32> {
    if bet_amount > MAX_BET_AMOUNT {
        Err(ERROR_BET_TOO_LARGE)
    } else {
        Ok(net_of(bet_amount as int) as u64)
    }
}

/// `bet_amount` less its fee. `ERROR_BET_TOO_LARGE` when `bet_amount`
/// exceeds `MAX_BET_AMOUNT`.
pub fn calculate_net_amount_safe(bet_amount: u64) -> (r: Result<u64, u32>)
    ensures
        r == calculate_net_amount_safe_spec(bet_amount),
{
    let fee: u64 = calculate_fee_safe(bet_amount)?;
    safe_sub(bet_amount, fee)
}

/// Accepts a liquidity parameter that is not zero; `ERROR_INVALID_CALCULATION`
/// otherwise.
pub fn validate_b(b: u64) -> (r: Result<(), u32>)
    ensures
        b != 0 ==> r == Ok::<(), u32>(()),
        b == 0 ==> r == Err::<(), u32>(ERROR_INVALID_CALCULATION),
{
    if b == 0 {
        return Err(ERROR_INVALID_CALCULATION);
    }
    Ok(())
}

/// What `calculate_effective_price_safe` returns: `bet_amount / shares` in
/// units of `PRICE_PRECISION`, rounded down, and zero for no shares.
pub open spec fn calculate_effective_price_safe_spec(bet_amount: u64, shares: u64) -> Result<
    u64,
    u32,
> {
    if shares == 0 {
        Ok(0)
    } else if (bet_amount * PRICE_PRECISION) / (shares as int) > u64::MAX {
        Err(ERROR_OVERFLOW)
    } else {
        Ok(((bet_amount * PRICE_PRECISION) / (shares as int)) as u64)
    }
}

/// The average price paid per share, in units of `PRICE_PRECISION`; zero
/// for no shares. `ERROR_OVERFLOW` when the price leaves 64 bits.
pub fn calculate_effective_price_safe(bet_amount: u64, shares: u64) -> (r: Result<u64, u32>)
    ensures
        r == calculate_effective_price_safe_spec(bet_amount, shares),
{
    if shares == 0 {
        return Ok(0);
    }
    safe_div_high_precision(bet_amount, PRICE_PRECISION, shares)
}

/// What `validate_bet_amount` returns.
pub open spec fn validate_bet_amount_spec(bet_amount: u64) -> Result<(), u32> {
    if bet_amount == 0 {
        Err(ERROR_INVALID_BET_AMOUNT)
    } else if bet_amount > MAX_BET_AMOUNT {
        Err(ERROR_BET_TOO_LARGE)
    } else {
        Ok(())
    }
}

/// Accepts an amount in `1 ..= MAX_BET_AMOUNT`. `ERROR_INVALID_BET_AMOUNT`
/// for zero, `ERROR_BET_TOO_LARGE` above the maximum.
pub fn validate_bet_amount(bet_amount: u64) -> (r: Result<(), u32>)
    ensures
        r == validate_bet_amount_spec(bet_amount),
{
    if bet_amount == 0 {
        return Err(ERROR_INVALID_BET_AMOUNT);
    }
    if bet_amount > MAX_BET_AMOUNT {
        return Err(ERROR_BET_TOO_LARGE);
    }
    Ok(())
}

/// What `validate_shares` returns.
pub open spec fn validate_shares_spec(shares: u64) -> Result<(), u32> {
    if shares == 0 {
        Err(ERROR_INVALID_BET_AMOUNT)
    } else if shares > MAX_SHARES {
        Err(ERROR_BET_TOO_LARGE)
    } else {
        Ok(())
    }
}

/// Accepts a share count in `1 ..= MAX_SHARES`. `ERROR_INVALID_BET_AMOUNT`
/// for zero, `ERROR_BET_TOO_LARGE` above the maximum.
pub fn validate_shares(shares: u64) -> (r: Result<(), u32>)
    ensures
        r == validate_shares_spec(shares),
{
    if shares == 0 {
        return Err(ERROR_INVALID_BET_AMOUNT);
    }
    if shares > MAX_SHARES {
        return Err(ERROR_BET_TOO_LARGE);
    }
    Ok(())
}

/// What `validate_liquidity` returns.
pub open spec fn validate_liquidity_spec(liquidity: u64) -> Result<(), u32> {
    if liquidity < MIN_LIQUIDITY {
        Err(ERROR_INVALID_CALCULATION)
    } else if liquidity > MAX_LIQUIDITY {
        Err(ERROR_LIQUIDITY_TOO_HIGH)
    } else {
        Ok(())
    }
}

/// Accepts a liquidity in `MIN_LIQUIDITY ..= MAX_LIQUIDITY`.
/// `ERROR_INVALID_CALCULATION` below the minimum, `ERROR_LIQUIDITY_TOO_HIGH`
/// above the maximum.
pub fn validate_liquidity(liquidity: u64) -> (r: Result<(), u32>)
    ensures
        r == validate_liquidity_spec(liquidity),
{
    if liquidity < MIN_LIQUIDITY {
        return Err(ERROR_INVALID_CALCULATION);
    }
    if liquidity > MAX_LIQUIDITY {
        return Err(ERROR_LIQUIDITY_TOO_HIGH);
    }
    Ok(())
}

} // verus!
