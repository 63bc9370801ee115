//! How the series, the cost and the quotes grow with the number of shares.

use vstd::arithmetic::div_mod::{lemma_div_is_ordered, lemma_hoist_over_denominator};
use vstd::prelude::*;
use crate::math_safe::{
    buy_quote_spec, cost_argument, cost_is_defined, cost_value, exp_series, fp_cube, fp_square,
    lemma_cost_bounds, lemma_exp_series_bounds, lemma_q_over_b_bounds, lmsr_cost_spec, ln_series,
    powers_fit, q_over_b, sell_quote_spec, FP_SCALE, MAX_SHARES,
};
use crate::solver::{affordable, lemma_search_shares_ends, search_shares};

verus! {

/// Squares and cubes in fixed point grow with their argument, and where the
/// powers of an argument fit in 128 bits, those of every smaller one do.
pub proof fn lemma_powers_are_monotone(x1: int, x2: int)
    requires
        0 <= x1 <= x2,
    ensures
        0 <= fp_square(x1) <= fp_square(x2),
        0 <= fp_cube(x1) <= fp_cube(x2),
        powers_fit(x2) ==> powers_fit(x1),
{
    assert(0 <= x1 * x1 <= x2 * x2) by (nonlinear_arith)
        requires
            0 <= x1 <= x2,
    ;
    let s1 = fp_square(x1);
    let s2 = fp_square(x2);
    assert(0 <= s1 <= s2);
    assert(0 <= s1 * x1 <= s2 * x2) by (nonlinear_arith)
        requires
            0 <= x1 <= x2,
            0 <= s1 <= s2,
    ;
}

/// The exponential series grows at least as fast as its argument.
pub proof fn lemma_exp_series_grows(x1: int, x2: int)
    requires
        0 <= x1 <= x2,
    ensures
        exp_series(x2) - exp_series(x1) >= x2 - x1,
{
    lemma_powers_are_monotone(x1, x2);
}

/// From one to four, the logarithm series does not fall from one argument
/// to the next.
proof fn lemma_ln_series_unit_step(a: int)
    requires
        FP_SCALE <= a,
        a + 1 < 4 * FP_SCALE,
    ensures
        ln_series(a) <= ln_series(a + 1),
{
    let c = a + 1;
    let a2 = a * a;
    let c2 = c * c;
    let sq_a = fp_square(a);
    let sq_c = fp_square(c);
    let raw_a = sq_a * a;
    let raw_c = sq_c * c;
    let cu_a = fp_cube(a);
    let cu_c = fp_cube(c);
    assert(c2 == a2 + 2 * a + 1) by (nonlinear_arith)
        requires
            c == a + 1,
            a2 == a * a,
            c2 == c * c,
    ;
    assert(a2 >= 1_000_000 * a) by (nonlinear_arith)
        requires
            a >= 1_000_000,
            a2 == a * a,
    ;
    assert(sq_a == a2 / 1_000_000 && sq_c == c2 / 1_000_000);
    assert(cu_a == raw_a / 1_000_000 && cu_c == raw_c / 1_000_000);
    assert(sq_a >= a);
    let step = sq_c - sq_a;
    if a < 2_000_000 {
        assert(2 <= step <= 4);
        assert(raw_c >= raw_a + sq_a + 2 * a + 2) by (nonlinear_arith)
            requires
                raw_a == sq_a * a,
                raw_c == sq_c * c,
                c == a + 1,
                sq_c >= sq_a + 2,
                0 <= a,
        ;
        assert(cu_c >= cu_a + 3);
    } else {
        assert(a2 >= 2_000_000 * a) by (nonlinear_arith)
            requires
                a >= 2_000_000,
                a2 == a * a,
        ;
        assert(sq_a >= 2 * a);
        assert(4 <= step <= 8);
        assert(raw_c >= raw_a + sq_a + 4 * a + 4) by (nonlinear_arith)
            requires
                raw_a == sq_a * a,
                raw_c == sq_c * c,
                c == a + 1,
                sq_c >= sq_a + 4,
                0 <= a,
        ;
        assert(cu_c >= cu_a + 12);
    }
}

/// From one to four, the logarithm series does not fall as its argument
/// grows.
pub proof fn lemma_ln_series_is_monotone(a: int, c: int)
    requires
        FP_SCALE <= a <= c < 4 * FP_SCALE,
    ensures
        ln_series(a) <= ln_series(c),
    decreases c - a,
{
    if a < c {
        lemma_ln_series_is_monotone(a, c - 1);
        lemma_ln_series_unit_step(c - 1);
    }
}

/// From one to four, the logarithm series grows over every two units of
/// the last place.
proof fn lemma_ln_series_two_steps(a: int)
    requires
        FP_SCALE <= a,
        a + 2 < 4 * FP_SCALE,
    ensures
        ln_series(a) < ln_series(a + 2),
{
    let c = a + 2;
    let a2 = a * a;
    let c2 = c * c;
    let sq_a = fp_square(a);
    let sq_c = fp_square(c);
    let raw_a = sq_a * a;
    let raw_c = sq_c * c;
    let cu_a = fp_cube(a);
    let cu_c = fp_cube(c);
    assert(c2 == a2 + 4 * a + 4) by (nonlinear_arith)
        requires
            c == a + 2,
            a2 == a * a,
            c2 == c * c,
    ;
    assert(a2 >= 1_000_000 * a) by (nonlinear_arith)
        requires
            a >= 1_000_000,
            a2 == a * a,
    ;
    assert(sq_a == a2 / 1_000_000 && sq_c == c2 / 1_000_000);
    assert(cu_a == raw_a / 1_000_000 && cu_c == raw_c / 1_000_000);
    assert(sq_a >= a);
    let step = sq_c - sq_a;
    if a < 2_000_000 {
        assert(4 <= step <= 8);
        assert(raw_c >= raw_a + 1_000_000 * step + 2 * sq_c) by (nonlinear_arith)
            requires
                raw_a == sq_a * a,
                raw_c == sq_c * c,
                c == a + 2,
                step == sq_c - sq_a,
                0 <= step,
                1_000_000 <= a,
        ;
        assert(cu_c >= cu_a + step + 2);
    } else {
        assert(a2 >= 2_000_000 * a) by (nonlinear_arith)
            requires
                a >= 2_000_000,
                a2 == a * a,
        ;
        assert(sq_a >= 2 * a);
        assert(8 <= step <= 16);
        assert(raw_c >= raw_a + 2_000_000 * step + 2 * sq_c) by (nonlinear_arith)
            requires
                raw_a == sq_a * a,
                raw_c == sq_c * c,
                c == a + 2,
                step == sq_c - sq_a,
                0 <= step,
                2_000_000 <= a,
        ;
        assert(cu_c >= cu_a + 2 * step + 8);
    }
}

/// From one to four, the logarithm series is strictly greater at `c` than
/// at `a` wherever `c` is at least two units of the last place above `a`.
/// Over a single unit it may stay as it is.
pub proof fn lemma_ln_series_increases(a: int, c: int)
    requires
        FP_SCALE <= a,
        a + 2 <= c < 4 * FP_SCALE,
    ensures
        ln_series(a) < ln_series(c),
{
    lemma_ln_series_two_steps(a);
    lemma_ln_series_is_monotone(a + 2, c);
}

/// Where the quadratic term of the logarithm series does not exceed the
/// linear one at `z2`, it does not at any smaller `z1` either.
pub proof fn lemma_ln_domain_is_downward_closed(z1: int, z2: int)
    requires
        0 <= z1 <= z2,
        fp_square(z2) / 2 <= z2,
    ensures
        fp_square(z1) / 2 <= z1,
{
    let t1 = z1 * z1;
    let t2 = z2 * z2;
    assert(fp_square(z1) == t1 / 1_000_000 && fp_square(z2) == t2 / 1_000_000);
    assert(t2 < 2_000_000 * z2 + 2_000_000);
    if t1 >= 2_000_000 * z1 + 2_000_000 {
        assert(z1 > 2_000_000) by (nonlinear_arith)
            requires
                0 <= z1,
                z1 * z1 >= 2_000_000 * z1 + 2_000_000,
        ;
        assert(z2 * (z2 - 2_000_000) >= z1 * (z1 - 2_000_000)) by (nonlinear_arith)
            requires
                2_000_000 < z1 <= z2,
        ;
        assert(z2 * (z2 - 2_000_000) == t2 - 2_000_000 * z2) by (nonlinear_arith)
            requires
                t2 == z2 * z2,
        ;
        assert(z1 * (z1 - 2_000_000) == t1 - 2_000_000 * z1) by (nonlinear_arith)
            requires
                t1 == z1 * z1,
        ;
        assert(false);
    }
}

/// A supply that is larger by `k * b / FP_SCALE` or more has a ratio to `b`
/// that is larger by `k` units or more.
pub proof fn lemma_ratio_steps(q1: u64, q2: u64, b: u64, k: int)
    requires
        b != 0,
        q1 <= q2,
        0 <= k,
        (q2 - q1) * FP_SCALE >= k * b,
    ensures
        0 <= q_over_b(q1, b),
        q_over_b(q1, b) + k <= q_over_b(q2, b),
{
    lemma_q_over_b_bounds(q1, b);
    let n1: int = q1 * FP_SCALE;
    let n2: int = q2 * FP_SCALE;
    let d: int = b as int;
    lemma_hoist_over_denominator(n1, k, d as nat);
    assert(k * d == k * b);
    lemma_div_is_ordered(n1 + k * d, n2, d);
}

/// The cost of a market grows with its supplies. Where the cost is defined
/// with supplies `(q_yes2, q_no2)`, it is defined with all supplies
/// `(q_yes1, q_no1)` that are not greater, and it is not smaller with the
/// greater ones. Where the ratio of one of the two supplies to `b` is
/// greater by two units of the last place or more, the cost is greater by
/// at least `b`; a supply that is greater by `2 * b / FP_SCALE` or more has
/// such a ratio.
pub proof fn lemma_cost_is_monotone(q_yes1: u64, q_no1: u64, q_yes2: u64, q_no2: u64, b: u64)
    requires
        q_yes1 <= q_yes2,
        q_no1 <= q_no2,
        cost_is_defined(q_yes2, q_no2, b),
    ensures
        cost_is_defined(q_yes1, q_no1, b),
        0 <= cost_value(q_yes1, q_no1, b) <= cost_value(q_yes2, q_no2, b) <= u128::MAX,
        q_over_b(q_yes1, b) + 2 <= q_over_b(q_yes2, b) || q_over_b(q_no1, b) + 2 <= q_over_b(
            q_no2,
            b,
        ) ==> cost_value(q_yes1, q_no1, b) + b <= cost_value(q_yes2, q_no2, b),
        (q_yes2 - q_yes1) * FP_SCALE >= 2 * b || (q_no2 - q_no1) * FP_SCALE >= 2 * b
            ==> cost_value(q_yes1, q_no1, b) + b <= cost_value(q_yes2, q_no2, b),
{
    lemma_ratio_steps(q_yes1, q_yes2, b, 0);
    lemma_ratio_steps(q_no1, q_no2, b, 0);
    let x_yes1 = q_over_b(q_yes1, b);
    let x_yes2 = q_over_b(q_yes2, b);
    let x_no1 = q_over_b(q_no1, b);
    let x_no2 = q_over_b(q_no2, b);
    lemma_powers_are_monotone(x_yes1, x_yes2);
    lemma_powers_are_monotone(x_no1, x_no2);
    lemma_exp_series_grows(x_yes1, x_yes2);
    lemma_exp_series_grows(x_no1, x_no2);
    lemma_exp_series_bounds(x_yes1);
    lemma_exp_series_bounds(x_no1);
    let z1 = cost_argument(q_yes1, q_no1, b);
    let z2 = cost_argument(q_yes2, q_no2, b);
    assert(FP_SCALE <= z1 <= z2);
    lemma_powers_are_monotone(z1, z2);
    lemma_ln_domain_is_downward_closed(z1, z2);
    lemma_cost_bounds(q_yes2, q_no2, b);
    lemma_cost_bounds(q_yes1, q_no1, b);
    lemma_ln_series_is_monotone(z1, z2);
    let g1 = ln_series(z1);
    let g2 = ln_series(z2);
    assert(b * g1 <= b * g2) by (nonlinear_arith)
        requires
            g1 <= g2,
            0 <= b,
    ;
    if (q_yes2 - q_yes1) * FP_SCALE >= 2 * b {
        lemma_ratio_steps(q_yes1, q_yes2, b, 2);
    }
    if (q_no2 - q_no1) * FP_SCALE >= 2 * b {
        lemma_ratio_steps(q_no1, q_no2, b, 2);
    }
    if x_yes1 + 2 <= x_yes2 || x_no1 + 2 <= x_no2 {
        lemma_ln_series_increases(z1, z2);
        assert(b * g1 + b <= b * g2) by (nonlinear_arith)
            requires
                g1 + 1 <= g2,
                0 <= b,
        ;
    }
}

/// The cost of a market does not depend on which side is called YES.
pub proof fn lemma_cost_is_symmetric(q_yes: u64, q_no: u64, b: u64)
    ensures
        lmsr_cost_spec(q_yes, q_no, b) == lmsr_cost_spec(q_no, q_yes, b),
{
}

/// Quotes are differences of costs and never negative: a buy quote is the
/// cost after the purchase less the cost before, a sell quote the cost
/// before the sale less the cost after.
pub proof fn lemma_quotes_are_not_negative(
    q_yes: u64,
    q_no: u64,
    b: u64,
    is_yes: bool,
    shares: u64,
)
    ensures
        buy_quote_spec(q_yes, q_no, b, is_yes, shares) matches Ok(quote) ==> {
            let (yes, no) = supplies_after_buy(q_yes, q_no, is_yes, shares);
            0 <= cost_value(q_yes, q_no, b) <= cost_value(yes, no, b) && quote == cost_value(
                yes,
                no,
                b,
            ) - cost_value(q_yes, q_no, b)
        },
        sell_quote_spec(q_yes, q_no, b, is_yes, shares) matches Ok(quote) ==> {
            let (yes, no) = supplies_after_sale(q_yes, q_no, is_yes, shares);
            0 <= cost_value(yes, no, b) <= cost_value(q_yes, q_no, b) && quote == cost_value(
                q_yes,
                q_no,
                b,
            ) - cost_value(yes, no, b)
        },
{
    if buy_quote_spec(q_yes, q_no, b, is_yes, shares) is Ok {
        let (yes, no) = supplies_after_buy(q_yes, q_no, is_yes, shares);
        lemma_cost_is_monotone(q_yes, q_no, yes, no, b);
    }
    if sell_quote_spec(q_yes, q_no, b, is_yes, shares) is Ok {
        let (yes, no) = supplies_after_sale(q_yes, q_no, is_yes, shares);
        lemma_cost_is_monotone(yes, no, q_yes, q_no, b);
    }
}

/// The supplies after `delta` shares of one side are bought, where they
/// fit in 64 bits.
pub open spec fn supplies_after_buy(q_yes: u64, q_no: u64, is_yes: bool, delta: u64) -> (u64, u64) {
    if is_yes {
        ((q_yes + delta) as u64, q_no)
    } else {
        (q_yes, (q_no + delta) as u64)
    }
}

/// The supplies after `shares` of one side are sold, where the side has as
/// many.
pub open spec fn supplies_after_sale(q_yes: u64, q_no: u64, is_yes: bool, shares: u64) -> (
    u64,
    u64,
) {
    if is_yes {
        ((q_yes - shares) as u64, q_no)
    } else {
        (q_yes, (q_no - shares) as u64)
    }
}

/// Buy quotes never fall as the number of shares grows: where the quote
/// for `d2` shares is defined, so is the quote for every smaller number
/// `d1`, and it is not greater.
pub proof fn lemma_buy_quote_is_monotone(
    q_yes: u64,
    q_no: u64,
    b: u64,
    is_yes: bool,
    d1: u64,
    d2: u64,
)
    requires
        d1 <= d2,
        buy_quote_spec(q_yes, q_no, b, is_yes, d2) is Ok,
    ensures
        buy_quote_spec(q_yes, q_no, b, is_yes, d1) is Ok,
        buy_quote_spec(q_yes, q_no, b, is_yes, d1)->Ok_0 <= buy_quote_spec(
            q_yes,
            q_no,
            b,
            is_yes,
            d2,
        )->Ok_0,
{
    let (yes1, no1) = supplies_after_buy(q_yes, q_no, is_yes, d1);
    let (yes2, no2) = supplies_after_buy(q_yes, q_no, is_yes, d2);
    lemma_cost_is_monotone(yes1, no1, yes2, no2, b);
    lemma_cost_is_monotone(q_yes, q_no, yes1, no1, b);
}

/// The ratio to `b` of the supply of the side that is bought, after `delta`
/// shares of it are bought.
pub open spec fn ratio_after_buy(q_yes: u64, q_no: u64, b: u64, is_yes: bool, delta: u64) -> int {
    if is_yes {
        q_over_b((q_yes + delta) as u64, b)
    } else {
        q_over_b((q_no + delta) as u64, b)
    }
}

/// Buy quotes grow strictly with the number of shares, at steps of
/// `2 * b / FP_SCALE` shares or more: of two numbers of shares that far
/// apart whose quotes are both defined, the larger has the quote that is
/// greater by at least `b`. The same holds of any two numbers of shares
/// between which the ratio of supply to `b` moves by two units of the last
/// place or more. Where `b` is at most `FP_SCALE / 2`, every two numbers of
/// shares are that far apart. At finer steps the quote may stay as it is:
/// see `lemma_buy_quote_stalls`.
pub proof fn lemma_buy_quote_increases(
    q_yes: u64,
    q_no: u64,
    b: u64,
    is_yes: bool,
    d1: u64,
    d2: u64,
)
    requires
        d1 < d2,
        (d2 - d1) * FP_SCALE >= 2 * b || ratio_after_buy(q_yes, q_no, b, is_yes, d1) + 2
            <= ratio_after_buy(q_yes, q_no, b, is_yes, d2),
        buy_quote_spec(q_yes, q_no, b, is_yes, d1) is Ok,
        buy_quote_spec(q_yes, q_no, b, is_yes, d2) is Ok,
    ensures
        buy_quote_spec(q_yes, q_no, b, is_yes, d1)->Ok_0 + b <= buy_quote_spec(
            q_yes,
            q_no,
            b,
            is_yes,
            d2,
        )->Ok_0,
        buy_quote_spec(q_yes, q_no, b, is_yes, d1)->Ok_0 < buy_quote_spec(
            q_yes,
            q_no,
            b,
            is_yes,
            d2,
        )->Ok_0,
        b > 0,
{
    let (yes1, no1) = supplies_after_buy(q_yes, q_no, is_yes, d1);
    let (yes2, no2) = supplies_after_buy(q_yes, q_no, is_yes, d2);
    lemma_cost_is_monotone(yes1, no1, yes2, no2, b);
    lemma_cost_is_monotone(q_yes, q_no, yes1, no1, b);
}

/// Two numbers of shares that leave the ratio of supply to `b` the same
/// have the same quote: the ratio is rounded down, so that on a market
/// with a `b` above `FP_SCALE` some neighbouring numbers of shares cost the
/// same.
pub proof fn lemma_buy_quote_stalls(
    q_yes: u64,
    q_no: u64,
    b: u64,
    is_yes: bool,
    d1: u64,
    d2: u64,
)
    requires
        ratio_after_buy(q_yes, q_no, b, is_yes, d1) == ratio_after_buy(q_yes, q_no, b, is_yes, d2),
        buy_quote_spec(q_yes, q_no, b, is_yes, d1) is Ok,
        buy_quote_spec(q_yes, q_no, b, is_yes, d2) is Ok,
    ensures
        buy_quote_spec(q_yes, q_no, b, is_yes, d1) == buy_quote_spec(q_yes, q_no, b, is_yes, d2),
{
}

/// Whoever can pay for some number of shares can pay for every smaller
/// number.
pub proof fn lemma_affordable_is_downward_closed(
    q_yes: u64,
    q_no: u64,
    b: u64,
    is_yes: bool,
    net: u64,
    d1: u64,
    d2: u64,
)
    requires
        d1 <= d2,
        affordable(q_yes, q_no, b, is_yes, net, d2),
    ensures
        affordable(q_yes, q_no, b, is_yes, net, d1),
{
    lemma_buy_quote_is_monotone(q_yes, q_no, b, is_yes, d1, d2);
    let c1 = buy_quote_spec(q_yes, q_no, b, is_yes, d1)->Ok_0;
    let c2 = buy_quote_spec(q_yes, q_no, b, is_yes, d2)->Ok_0;
    assert(c1 / FP_SCALE <= c2 / FP_SCALE);
}

/// The solver is exact: the numbers of shares up to `MAX_SHARES` that `net`
/// tokens pay for are those up to the number that the bisection finds.
pub proof fn lemma_solver_is_exact(
    q_yes: u64,
    q_no: u64,
    b: u64,
    is_yes: bool,
    net: u64,
    shares: u64,
)
    requires
        1 <= shares <= MAX_SHARES,
    ensures
        affordable(q_yes, q_no, b, is_yes, net, shares) <==> shares <= search_shares(
            q_yes,
            q_no,
            b,
            is_yes,
            net,
            0,
            MAX_SHARES,
        ),
{
    let found = search_shares(q_yes, q_no, b, is_yes, net, 0, MAX_SHARES);
    lemma_search_shares_ends(q_yes, q_no, b, is_yes, net, 0, MAX_SHARES);
    if shares <= found {
        lemma_affordable_is_downward_closed(q_yes, q_no, b, is_yes, net, shares, found);
    } else if affordable(q_yes, q_no, b, is_yes, net, shares) {
        lemma_affordable_is_downward_closed(
            q_yes,
            q_no,
            b,
            is_yes,
            net,
            (found + 1) as u64,
            shares,
        );
    }
}

} // verus!
