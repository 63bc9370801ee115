use prediction_market::config::PRICE_PRECISION;
use prediction_market::error::{
    ERROR_BET_TOO_LARGE, ERROR_DIVISION_BY_ZERO, ERROR_INSUFFICIENT_BALANCE,
    ERROR_INVALID_BET_AMOUNT, ERROR_INVALID_CALCULATION, ERROR_LIQUIDITY_TOO_HIGH, ERROR_OVERFLOW,
    ERROR_UNDERFLOW,
};
use prediction_market::market::MarketData;
use prediction_market::math_safe::{
    calculate_effective_price_safe, calculate_fee_safe, calculate_net_amount_safe,
    calculate_no_price_lmsr, calculate_yes_price_lmsr, lmsr_buy_no_quote, lmsr_buy_yes_quote,
    lmsr_cost, lmsr_price_no, lmsr_price_yes, lmsr_sell_no_quote, lmsr_sell_yes_quote, safe_add,
    safe_div, safe_div_high_precision, safe_mul, safe_mul_high_precision, safe_sub, validate_b,
    validate_bet_amount, validate_liquidity, validate_shares, FP_SCALE, MAX_BET_AMOUNT,
    MAX_LIQUIDITY, MAX_SHARES, MIN_LIQUIDITY,
};

#[test]
fn test_overflow_protection() {
    let result = safe_mul(u64::MAX, 2);
    assert_eq!(result, Err(ERROR_OVERFLOW));

    let result = safe_mul(u64::MAX / 2, 3);
    assert_eq!(result, Err(ERROR_OVERFLOW));

    let result = safe_mul(1000, 2000);
    assert_eq!(result, Ok(2_000_000));
}

#[test]
fn test_division_by_zero_protection() {
    let result = safe_div(1000, 0);
    assert_eq!(result, Err(ERROR_DIVISION_BY_ZERO));

    let result = safe_div(1000, 10);
    assert_eq!(result, Ok(100));
}

#[test]
fn test_underflow_protection() {
    let result = safe_sub(5, 10);
    assert_eq!(result, Err(ERROR_UNDERFLOW));

    let result = safe_sub(0, 1);
    assert_eq!(result, Err(ERROR_UNDERFLOW));

    let result = safe_sub(100, 50);
    assert_eq!(result, Ok(50));
}

#[test]
fn test_lmsr_cost_safety() {
    let result = lmsr_cost(1_000, 1_000, 10_000);
    assert!(result.is_ok());
    assert!(result.unwrap() > 0);

    let result = lmsr_cost(1_000, 1_000, 0);
    assert_eq!(result, Err(ERROR_INVALID_CALCULATION));

    let result = lmsr_cost(500, 1_500, 10_000);
    assert!(result.is_ok());
}

#[test]
fn test_lmsr_price_safety() {
    let q_yes = 1_000u64;
    let q_no = 1_000u64;
    let b = 10_000u64;

    let p_yes = lmsr_price_yes(q_yes, q_no, b);
    assert!(p_yes.is_ok());
    assert!(p_yes.unwrap() > 0);

    let p_no = lmsr_price_no(q_yes, q_no, b);
    assert!(p_no.is_ok());
    assert!(p_no.unwrap() > 0);

    assert_eq!(p_yes.unwrap() + p_no.unwrap(), FP_SCALE);

    let result = lmsr_price_yes(q_yes, q_no, 0);
    assert_eq!(result, Err(ERROR_INVALID_CALCULATION));
}

#[test]
fn test_lmsr_buy_quote_safety() {
    let q_yes = 1_000u64;
    let q_no = 1_000u64;
    let b = 10_000u64;

    let cost = lmsr_buy_yes_quote(q_yes, q_no, b, 100);
    assert!(cost.is_ok());
    assert!(cost.unwrap() > 0);

    let cost = lmsr_buy_no_quote(q_yes, q_no, b, 100);
    assert!(cost.is_ok());
    assert!(cost.unwrap() > 0);

    let _cost = lmsr_buy_yes_quote(q_yes, q_no, b, 100_000);
}

#[test]
fn test_lmsr_sell_quote_safety() {
    let q_yes = 1_000u64;
    let q_no = 1_000u64;
    let b = 10_000u64;

    let payout = lmsr_sell_yes_quote(q_yes, q_no, b, 100);
    assert!(payout.is_ok());
    assert!(payout.unwrap() > 0);

    let payout = lmsr_sell_no_quote(q_yes, q_no, b, 100);
    assert!(payout.is_ok());
    assert!(payout.unwrap() > 0);

    let payout = lmsr_sell_yes_quote(q_yes, q_no, b, q_yes + 1);
    assert_eq!(payout, Err(ERROR_INVALID_BET_AMOUNT));
}

#[test]
fn test_bet_amount_validation() {
    assert_eq!(validate_bet_amount(0), Err(ERROR_INVALID_BET_AMOUNT));

    assert_eq!(validate_bet_amount(MAX_BET_AMOUNT + 1), Err(ERROR_BET_TOO_LARGE));

    assert!(validate_bet_amount(1000).is_ok());
    assert!(validate_bet_amount(MAX_BET_AMOUNT).is_ok());
}

#[test]
fn test_shares_validation() {
    assert_eq!(validate_shares(0), Err(ERROR_INVALID_BET_AMOUNT));

    assert_eq!(validate_shares(MAX_SHARES + 1), Err(ERROR_BET_TOO_LARGE));

    assert!(validate_shares(1000).is_ok());
    assert!(validate_shares(MAX_SHARES).is_ok());
}

#[test]
fn test_liquidity_validation() {
    assert_eq!(validate_liquidity(MIN_LIQUIDITY - 1), Err(ERROR_INVALID_CALCULATION));

    assert_eq!(validate_liquidity(MAX_LIQUIDITY + 1), Err(ERROR_LIQUIDITY_TOO_HIGH));

    assert!(validate_liquidity(MIN_LIQUIDITY).is_ok());
    assert!(validate_liquidity(MAX_LIQUIDITY).is_ok());
    assert!(validate_liquidity(1_000_000).is_ok());
}

#[test]
fn test_fee_calculation_safety() {
    let result = calculate_fee_safe(10000);
    assert!(result.is_ok());

    let fee = result.unwrap();
    assert_eq!(fee, 100);

    let result = calculate_fee_safe(1960);
    assert!(result.is_ok());
    let fee = result.unwrap();
    assert_eq!(fee, 20);

    let result = calculate_fee_safe(99);
    assert!(result.is_ok());
    let fee = result.unwrap();
    assert_eq!(fee, 1);

    let result = calculate_fee_safe(50);
    assert!(result.is_ok());
    let fee = result.unwrap();
    assert_eq!(fee, 1);

    let result = calculate_fee_safe(10);
    assert!(result.is_ok());
    let fee = result.unwrap();
    assert_eq!(fee, 1);

    let result = calculate_fee_safe(1);
    assert!(result.is_ok());
    let fee = result.unwrap();
    assert_eq!(fee, 1);

    let result = calculate_fee_safe(MAX_BET_AMOUNT + 1);
    assert_eq!(result, Err(ERROR_BET_TOO_LARGE));
}

#[test]
fn test_net_amount_calculation_safety() {
    let result = calculate_net_amount_safe(10000);
    assert!(result.is_ok());

    let net = result.unwrap();
    assert_eq!(net, 9900);

    let result = calculate_net_amount_safe(1960);
    assert!(result.is_ok());
    let net = result.unwrap();
    assert_eq!(net, 1940);

    let result = calculate_net_amount_safe(MAX_BET_AMOUNT + 1);
    assert_eq!(result, Err(ERROR_BET_TOO_LARGE));
}

#[test]
fn test_high_precision_calculations() {
    let result = safe_mul_high_precision(1000, 1000000);
    assert_eq!(result, Ok(1_000_000_000));

    let result = safe_div_high_precision(1000, 1000000, 1000);
    assert_eq!(result, Ok(1_000_000));

    let result = safe_mul_high_precision(u64::MAX, u64::MAX);
    assert_eq!(result, Err(ERROR_OVERFLOW));

    let result = safe_div_high_precision(1000, 1000000, 0);
    assert_eq!(result, Err(ERROR_DIVISION_BY_ZERO));
}

#[test]
fn test_calculate_yes_no_price_lmsr() {
    let q_yes = 100_000u64;
    let q_no = 100_000u64;
    let b = 10_000u64;

    let price = calculate_yes_price_lmsr(q_yes, q_no, b);
    assert!(price.is_ok());
    let p = price.unwrap();
    assert!(p > 0 && p < PRICE_PRECISION);

    let price = calculate_no_price_lmsr(q_yes, q_no, b);
    assert!(price.is_ok());
    let p = price.unwrap();
    assert!(p > 0 && p < PRICE_PRECISION);
}

#[test]
fn security_tests_test_validate_b() {
    assert!(validate_b(10_000).is_ok());

    assert_eq!(validate_b(0), Err(ERROR_INVALID_CALCULATION));

    assert!(validate_b(1_000_000).is_ok());
}

#[test]
fn test_effective_price_calculation_safety() {
    let result = calculate_effective_price_safe(1000, 500);
    assert!(result.is_ok());

    let result = calculate_effective_price_safe(1000, 0);
    assert_eq!(result, Ok(0));
}

#[test]
fn test_edge_cases() {
    let result = safe_add(u64::MAX - 1, 1);
    assert_eq!(result, Ok(u64::MAX));

    let result = safe_add(u64::MAX, 1);
    assert_eq!(result, Err(ERROR_OVERFLOW));

    let result = safe_sub(1, 1);
    assert_eq!(result, Ok(0));

    let result = safe_sub(0, 1);
    assert_eq!(result, Err(ERROR_UNDERFLOW));
}

#[test]
fn test_realistic_lmsr_scenarios() {
    let initial_q_yes = 1_000u64;
    let initial_q_no = 1_000u64;
    let b = 10_000u64;

    let initial_p_yes = lmsr_price_yes(initial_q_yes, initial_q_no, b).unwrap();
    let initial_p_no = lmsr_price_no(initial_q_yes, initial_q_no, b).unwrap();
    assert!(initial_p_yes > FP_SCALE / 2 - 100_000 && initial_p_yes < FP_SCALE / 2 + 100_000);
    assert!(initial_p_no > FP_SCALE / 2 - 100_000 && initial_p_no < FP_SCALE / 2 + 100_000);

    let delta_yes = 100u64;
    let cost = lmsr_buy_yes_quote(initial_q_yes, initial_q_no, b, delta_yes).unwrap();
    assert!(cost > 0);

    let new_p_yes = lmsr_price_yes(initial_q_yes + delta_yes, initial_q_no, b).unwrap();
    assert!(new_p_yes > initial_p_yes);

    let payout =
        lmsr_sell_yes_quote(initial_q_yes + delta_yes, initial_q_no, b, delta_yes).unwrap();
    assert!(payout > 0);
    assert!(payout <= cost * 2 || cost <= payout * 2);
}

fn create_test_market() -> MarketData {
    MarketData::new_with_liquidity(0, 1000, 1000, 1_000, 1_000, 10_000).unwrap()
}

#[test]
fn test_safe_market_creation() {
    let market = MarketData::new_with_liquidity(0, 1000, 1000, 1_000, 1_000, 10_000);
    assert!(market.is_ok());
}

#[test]
fn test_safe_bet_amount_limits() {
    let mut market = create_test_market();

    let result = market.place_bet(1, MAX_BET_AMOUNT + 1);
    assert_eq!(result, Err(ERROR_BET_TOO_LARGE));

    let result = market.place_bet(1, 0);
    assert_eq!(result, Err(ERROR_INVALID_BET_AMOUNT));

    let result = market.place_bet(1, 1000);
    assert!(result.is_ok());
}

#[test]
fn test_safe_price_calculations() {
    let market = create_test_market();

    let yes_price = market.get_yes_price();
    assert!(yes_price.is_ok());

    let no_price = market.get_no_price();
    assert!(no_price.is_ok());

    let total_price = yes_price.unwrap() + no_price.unwrap();
    assert!((total_price as i64 - 1_000_000i64).abs() < 1000);
}

#[test]
fn test_safe_shares_calculation() {
    let market = create_test_market();

    let shares = market.calculate_shares(1, 10000);
    assert!(shares.is_ok());
    assert!(shares.unwrap() > 0);

    let shares = market.calculate_shares(1, MAX_BET_AMOUNT + 1);
    assert_eq!(shares, Err(ERROR_BET_TOO_LARGE));
}

#[test]
fn test_safe_sell_operations() {
    let mut market = create_test_market();

    let shares = market.place_bet(1, 10000).unwrap();

    let payout = market.sell_shares(1, shares / 2);
    assert!(payout.is_ok());

    let payout = market.sell_shares(1, shares * 2);
    assert_eq!(payout, Err(ERROR_INSUFFICIENT_BALANCE));

    let payout = market.sell_shares(1, MAX_SHARES + 1);
    assert!(payout.is_err());
}

#[test]
fn test_safe_payout_calculation() {
    let mut market = create_test_market();

    let yes_shares = market.place_bet(1, 10000).unwrap();
    let no_shares = market.place_bet(0, 5000).unwrap();

    market.resolve(true).unwrap();

    let payout = market.calculate_payout(yes_shares, 0);
    assert!(payout.is_ok());
    assert!(payout.unwrap() > 0);

    let payout = market.calculate_payout(0, no_shares);
    assert_eq!(payout.unwrap(), 0);
}

#[test]
fn test_market_with_custom_liquidity() {
    let market = MarketData::new_with_liquidity(0, 1000, 1000, 500, 1_500, 10_000);

    if let Err(_) = market {
        return;
    }
    let market = market.unwrap();

    let yes_price_result = market.get_yes_price();
    let no_price_result = market.get_no_price();

    if let (Ok(yes_price), Ok(no_price)) = (yes_price_result, no_price_result) {
        assert!(yes_price > no_price);
    }
}
