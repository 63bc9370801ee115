//! The share-amount solver: the largest number of shares whose quoted cost,
//! in whole tokens, a given amount of collateral pays for.

use vstd::arithmetic::power2::{lemma2_to64, lemma_pow2_unfold, pow2};
use vstd::prelude::*;
use crate::math_safe::{
    buy_quote_spec, lmsr_buy_no_quote, lmsr_buy_yes_quote, FP_SCALE, MAX_SHARES,
};
use crate::monotone::lemma_solver_is_exact;

verus! {

/// Whether `net` tokens pay for `delta` shares: the quote is defined and,
/// rounded down to whole tokens, does not exceed `net`. A number of shares
/// whose quote cannot be evaluated is not affordable.
pub open spec fn affordable(
    q_yes: u64,
    q_no: u64,
    b: u64,
    is_yes: bool,
    net: u64,
    delta: u64,
) -> bool {
    match buy_quote_spec(q_yes, q_no, b, is_yes, delta) {
        Ok(cost) => cost / FP_SCALE <= net,
        Err(_) => false,
    }
}

/// The upper midpoint of `lo ..= hi`.
pub open spec fn upper_mid(lo: u64, hi: u64) -> u64 {
    (lo + (hi - lo + 1) / 2) as u64
}

/// The bisection of `lo ..= hi`: the upper midpoint becomes the new lower
/// end where it is affordable, and its predecessor the new upper end where
/// it is not, until the two ends meet.
pub open spec fn search_shares(
    q_yes: u64,
    q_no: u64,
    b: u64,
    is_yes: bool,
    net: u64,
    lo: u64,
    hi: u64,
) -> u64
    decreases hi - lo,
{
    if lo >= hi {
        lo
    } else if affordable(q_yes, q_no, b, is_yes, net, upper_mid(lo, hi)) {
        search_shares(q_yes, q_no, b, is_yes, net, upper_mid(lo, hi), hi)
    } else {
        search_shares(q_yes, q_no, b, is_yes, net, lo, (upper_mid(lo, hi) - 1) as u64)
    }
}

/// The number of quotes that the bisection of `lo ..= hi` evaluates.
pub open spec fn search_probes(
    q_yes: u64,
    q_no: u64,
    b: u64,
    is_yes: bool,
    net: u64,
    lo: u64,
    hi: u64,
) -> nat
    decreases hi - lo,
{
    if lo >= hi {
        0
    } else if affordable(q_yes, q_no, b, is_yes, net, upper_mid(lo, hi)) {
        1 + search_probes(q_yes, q_no, b, is_yes, net, upper_mid(lo, hi), hi)
    } else {
        1 + search_probes(q_yes, q_no, b, is_yes, net, lo, (upper_mid(lo, hi) - 1) as u64)
    }
}

/// Whether `net` tokens pay for `delta` shares of one side.
pub fn is_affordable(q_yes: u64, q_no: u64, b: u64, is_yes: bool, net: u64, delta: u64) -> (r:
    bool)
    ensures
        r == affordable(q_yes, q_no, b, is_yes, net, delta),
{
    let quote = if is_yes {
        lmsr_buy_yes_quote(q_yes, q_no, b, delta)
    } else {
        lmsr_buy_no_quote(q_yes, q_no, b, delta)
    };
    match quote {
        Ok(cost) => cost / FP_SCALE <= net as u128,
        Err(_) => false,
    }
}

/// The largest number of shares up to `MAX_SHARES` that `net` tokens buy,
/// or zero where they do not buy one: every number from one up to the result
/// is affordable, and no number above it. The result is found by bisection,
/// which takes `search_probes` quotes; that is at most thirty.
pub fn solve_shares(q_yes: u64, q_no: u64, b: u64, is_yes: bool, net: u64) -> (delta: u64)
    ensures
        delta <= MAX_SHARES,
        forall|shares: u64|
            1 <= shares <= MAX_SHARES ==> (#[trigger] affordable(
                q_yes,
                q_no,
                b,
                is_yes,
                net,
                shares,
            ) <==> shares <= delta),
        delta == search_shares(q_yes, q_no, b, is_yes, net, 0, MAX_SHARES),
{
    let mut lo: u64 = 0;
    let mut hi: u64 = MAX_SHARES;
    let ghost mut quotes: nat = 0;
    while lo < hi
        invariant
            lo <= hi <= MAX_SHARES,
            search_shares(q_yes, q_no, b, is_yes, net, lo, hi) == search_shares(
                q_yes,
                q_no,
                b,
                is_yes,
                net,
                0,
                MAX_SHARES,
            ),
            quotes + search_probes(q_yes, q_no, b, is_yes, net, lo, hi) == search_probes(
                q_yes,
                q_no,
                b,
                is_yes,
                net,
                0,
                MAX_SHARES,
            ),
            lo > 0 ==> affordable(q_yes, q_no, b, is_yes, net, lo),
            hi < MAX_SHARES ==> !affordable(q_yes, q_no, b, is_yes, net, (hi + 1) as u64),
        decreases hi - lo,
    {
        let mid: u64 = lo + (hi - lo + 1) / 2;
        if is_affordable(q_yes, q_no, b, is_yes, net, mid) {
            lo = mid;
        } else {
            hi = mid - 1;
        }
        proof {
            quotes = quotes + 1;
        }
    }
    proof {
        assert forall|shares: u64| 1 <= shares <= MAX_SHARES implies (#[trigger] affordable(
            q_yes,
            q_no,
            b,
            is_yes,
            net,
            shares,
        ) <==> shares <= lo) by {
            lemma_solver_is_exact(q_yes, q_no, b, is_yes, net, shares);
        }
    }
    lo
}

/// The bisection of `lo ..= hi` ends inside the range; its result is `lo`
/// or affordable, and it is `hi` or its successor is not affordable.
pub proof fn lemma_search_shares_ends(
    q_yes: u64,
    q_no: u64,
    b: u64,
    is_yes: bool,
    net: u64,
    lo: u64,
    hi: u64,
)
    requires
        lo <= hi < u64::MAX,
    ensures
        lo <= search_shares(q_yes, q_no, b, is_yes, net, lo, hi) <= hi,
        search_shares(q_yes, q_no, b, is_yes, net, lo, hi) > lo ==> affordable(
            q_yes,
            q_no,
            b,
            is_yes,
            net,
            search_shares(q_yes, q_no, b, is_yes, net, lo, hi),
        ),
        search_shares(q_yes, q_no, b, is_yes, net, lo, hi) < hi ==> !affordable(
            q_yes,
            q_no,
            b,
            is_yes,
            net,
            (search_shares(q_yes, q_no, b, is_yes, net, lo, hi) + 1) as u64,
        ),
    decreases hi - lo,
{
    if lo < hi {
        let mid = upper_mid(lo, hi);
        if affordable(q_yes, q_no, b, is_yes, net, mid) {
            lemma_search_shares_ends(q_yes, q_no, b, is_yes, net, mid, hi);
        } else {
            lemma_search_shares_ends(q_yes, q_no, b, is_yes, net, lo, (mid - 1) as u64);
        }
    }
}

/// Each quote halves the range: the bisection of a range of fewer than
/// `2^k + 1` numbers evaluates at most `k` quotes.
pub proof fn lemma_search_probes_halve(
    q_yes: u64,
    q_no: u64,
    b: u64,
    is_yes: bool,
    net: u64,
    lo: u64,
    hi: u64,
    k: nat,
)
    requires
        lo <= hi,
        hi - lo < pow2(k),
    ensures
        search_probes(q_yes, q_no, b, is_yes, net, lo, hi) <= k,
    decreases hi - lo,
{
    if lo < hi {
        if k == 0 {
            lemma2_to64();
        } else {
            lemma_pow2_unfold(k);
            let mid = upper_mid(lo, hi);
            if affordable(q_yes, q_no, b, is_yes, net, mid) {
                lemma_search_probes_halve(q_yes, q_no, b, is_yes, net, mid, hi, (k - 1) as nat);
            } else {
                lemma_search_probes_halve(
                    q_yes,
                    q_no,
                    b,
                    is_yes,
                    net,
                    lo,
                    (mid - 1) as u64,
                    (k - 1) as nat,
                );
            }
        }
    }
}

/// The solver evaluates at most thirty quotes.
pub proof fn lemma_solver_takes_thirty_probes(
    q_yes: u64,
    q_no: u64,
    b: u64,
    is_yes: bool,
    net: u64,
)
    ensures
        search_probes(q_yes, q_no, b, is_yes, net, 0, MAX_SHARES) <= 30,
{
    lemma2_to64();
    lemma_search_probes_halve(q_yes, q_no, b, is_yes, net, 0, MAX_SHARES, 30);
}

} // verus!
