use prediction_market::config::PRICE_PRECISION;
use prediction_market::error::{
    ERROR_BET_TOO_LARGE, ERROR_DIVISION_BY_ZERO, ERROR_INVALID_BET_AMOUNT,
    ERROR_INVALID_CALCULATION, ERROR_OVERFLOW, ERROR_UNDERFLOW,
};
use prediction_market::math_safe::{
    calculate_no_price_lmsr, calculate_yes_price_lmsr, lmsr_buy_no_quote, lmsr_buy_yes_quote,
    lmsr_cost, lmsr_price_no, lmsr_price_yes, lmsr_sell_no_quote, lmsr_sell_yes_quote, safe_div,
    safe_mul, safe_sub, validate_b, validate_bet_amount, FP_SCALE, MAX_BET_AMOUNT,
};

#[test]
fn test_safe_mul_overflow() {
    let result = safe_mul(u64::MAX, 2);
    assert_eq!(result, Err(ERROR_OVERFLOW));
}

#[test]
fn test_safe_div_zero() {
    let result = safe_div(100, 0);
    assert_eq!(result, Err(ERROR_DIVISION_BY_ZERO));
}

#[test]
fn test_safe_sub_underflow() {
    let result = safe_sub(5, 10);
    assert_eq!(result, Err(ERROR_UNDERFLOW));
}

#[test]
fn test_lmsr_cost() {
    let result = lmsr_cost(1000, 1000, 10000);
    assert!(result.is_ok());
    assert!(result.unwrap() > 0);
}

#[test]
fn test_lmsr_price_yes_no() {
    let p_yes = lmsr_price_yes(1000, 1000, 10000).unwrap();
    let p_no = lmsr_price_no(1000, 1000, 10000).unwrap();
    assert_eq!(p_yes + p_no, FP_SCALE);
}

#[test]
fn test_lmsr_buy_yes_quote() {
    let cost = lmsr_buy_yes_quote(1000, 1000, 10000, 100);
    assert!(cost.is_ok());
    assert!(cost.unwrap() > 0);
}

#[test]
fn test_lmsr_buy_no_quote() {
    let cost = lmsr_buy_no_quote(1000, 1000, 10000, 100);
    assert!(cost.is_ok());
    assert!(cost.unwrap() > 0);
}

#[test]
fn test_lmsr_sell_yes_quote() {
    let payout = lmsr_sell_yes_quote(1000, 1000, 10000, 100);
    assert!(payout.is_ok());
    assert!(payout.unwrap() > 0);
}

#[test]
fn test_lmsr_sell_no_quote() {
    let payout = lmsr_sell_no_quote(1000, 1000, 10000, 100);
    assert!(payout.is_ok());
    assert!(payout.unwrap() > 0);
}

#[test]
fn test_calculate_yes_price_lmsr() {
    let price = calculate_yes_price_lmsr(1000, 1000, 10000);
    assert!(price.is_ok());
    let p = price.unwrap();
    assert!(p > 0 && p < PRICE_PRECISION);
}

#[test]
fn test_calculate_no_price_lmsr() {
    let price = calculate_no_price_lmsr(1000, 1000, 10000);
    assert!(price.is_ok());
    let p = price.unwrap();
    assert!(p > 0 && p < PRICE_PRECISION);
}

#[test]
fn test_validate_bet_amount() {
    assert!(validate_bet_amount(1000).is_ok());
    assert_eq!(validate_bet_amount(0), Err(ERROR_INVALID_BET_AMOUNT));
    assert_eq!(validate_bet_amount(MAX_BET_AMOUNT + 1), Err(ERROR_BET_TOO_LARGE));
}

#[test]
fn math_safe_test_validate_b() {
    assert!(validate_b(1000).is_ok());
    assert_eq!(validate_b(0), Err(ERROR_INVALID_CALCULATION));
}
