use simple_amm::errors::ErrorCodes;
use simple_amm::liquidity::{get_amount_from_liquidity_tokens, integer_sqrt, mint_amount_for_deposit};
use simple_amm::math::{get_amount_out, get_amount_out_with_fee, get_quote, quote};

#[test]
fn quote_exact_ratio() {
    assert_eq!(quote(500, 1000, 4000), Ok(2000));
    assert_eq!(quote(1, 1, 1), Ok(1));
}

#[test]
fn quote_rounds_down() {
    // 1 * 10 / 3 = 3.33..., truncated toward the pool
    assert_eq!(quote(1, 3, 10), Ok(3));
    assert_eq!(quote(7, 9, 4), Ok(3));
}

#[test]
fn quote_rejects_zero_amount() {
    assert_eq!(quote(0, 1000, 4000), Err(ErrorCodes::InsufficientAmountToDeposit));
}

#[test]
fn quote_rejects_empty_reserves() {
    assert_eq!(quote(10, 0, 4000), Err(ErrorCodes::InsufficientLiquidity));
    assert_eq!(quote(10, 1000, 0), Err(ErrorCodes::InsufficientLiquidity));
}

#[test]
fn quote_reports_overflow() {
    assert_eq!(quote(u64::MAX, 1, u64::MAX), Err(ErrorCodes::Overflow));
}

#[test]
fn deposit_quote_empty_pool_takes_desired() {
    assert_eq!(get_quote(0, 0, 1000, 4000, 0, 0), Ok((1000, 4000)));
}

#[test]
fn deposit_quote_follows_ratio_on_b_side() {
    // b_optimal = 500 * 4000 / 1000 = 2000 <= 4000
    assert_eq!(get_quote(1000, 4000, 500, 4000, 0, 1999), Ok((500, 2000)));
}

#[test]
fn deposit_quote_b_minimum_is_strict() {
    assert_eq!(
        get_quote(1000, 4000, 500, 4000, 0, 2000),
        Err(ErrorCodes::InsufficientTokenBAmount)
    );
}

#[test]
fn deposit_quote_follows_ratio_on_a_side() {
    // b_optimal = 1000 * 4000 / 1000 = 4000 > 2000, so a_optimal = 2000 * 1000 / 4000 = 500
    assert_eq!(get_quote(1000, 4000, 1000, 2000, 499, 0), Ok((500, 2000)));
}

#[test]
fn deposit_quote_a_minimum_is_strict() {
    assert_eq!(
        get_quote(1000, 4000, 1000, 2000, 500, 0),
        Err(ErrorCodes::InsufficientTokenAAmount)
    );
}

#[test]
fn deposit_quote_never_exceeds_desired() {
    let (a, b) = get_quote(1000, 4000, 750, 2200, 0, 0).unwrap();
    assert!(a <= 750 && b <= 2200);
    assert_eq!((a, b), (550, 2200));
}

#[test]
fn deposit_quote_one_sided_reserves_fail() {
    assert_eq!(get_quote(1000, 0, 10, 10, 0, 0), Err(ErrorCodes::InsufficientLiquidity));
    assert_eq!(get_quote(0, 1000, 10, 10, 0, 0), Err(ErrorCodes::InsufficientLiquidity));
}

#[test]
fn amount_out_matches_fee_formula() {
    // in_fee = 100 * 9970 = 997000; floor(997000 * 4000 / (1000 * 10000 + 997000)) = 362
    assert_eq!(get_amount_out(100, 1000, 4000), Ok(362));
}

#[test]
fn amount_out_rejects_zero_input() {
    assert_eq!(get_amount_out(0, 1000, 4000), Err(ErrorCodes::InsufficientInputAmountForSwap));
}

#[test]
fn amount_out_rejects_empty_reserves() {
    assert_eq!(get_amount_out(10, 0, 4000), Err(ErrorCodes::InsufficientLiquidity));
    assert_eq!(get_amount_out(10, 1000, 0), Err(ErrorCodes::InsufficientLiquidity));
}

#[test]
fn amount_out_with_zero_fee() {
    // floor(1000000 * 4000 / (10000000 + 1000000)) = 363
    assert_eq!(get_amount_out_with_fee(100, 1000, 4000, 0), Ok(363));
}

#[test]
fn amount_out_stays_below_reserve_out() {
    let out = get_amount_out(u64::MAX, 1, 50).unwrap();
    assert!(out < 50);
}

#[test]
fn integer_sqrt_exact_values() {
    assert_eq!(integer_sqrt(0), 0);
    assert_eq!(integer_sqrt(1), 1);
    assert_eq!(integer_sqrt(3), 1);
    assert_eq!(integer_sqrt(4), 2);
    assert_eq!(integer_sqrt(999_999), 999);
    assert_eq!(integer_sqrt(1_000_000), 1000);
    assert_eq!(integer_sqrt(u128::MAX), u64::MAX);
}

#[test]
fn mint_amount_for_seed_deposit() {
    // floor(sqrt(1000 * 4000)) = floor(sqrt(4000000)) = 2000
    assert_eq!(mint_amount_for_deposit(1000, 4000), 2000);
    assert_eq!(mint_amount_for_deposit(u64::MAX, u64::MAX), u64::MAX);
    assert_eq!(mint_amount_for_deposit(2, 3), 2);
}

#[test]
fn withdrawal_is_proportional() {
    assert_eq!(get_amount_from_liquidity_tokens(1000, 4000, 1000, 2000), Ok((500, 2000)));
}

#[test]
fn withdrawal_of_whole_supply_returns_reserves_exactly() {
    assert_eq!(get_amount_from_liquidity_tokens(1000, 4000, 2000, 2000), Ok((1000, 4000)));
    assert_eq!(get_amount_from_liquidity_tokens(7, 13, 5, 5), Ok((7, 13)));
}

#[test]
fn withdrawal_rejects_zero_tokens() {
    assert_eq!(
        get_amount_from_liquidity_tokens(1000, 4000, 0, 2000),
        Err(ErrorCodes::InsufficientLiquidityTokens)
    );
}

#[test]
fn withdrawal_rejects_empty_reserves() {
    assert_eq!(
        get_amount_from_liquidity_tokens(0, 4000, 10, 2000),
        Err(ErrorCodes::InsufficientLiquidity)
    );
    assert_eq!(
        get_amount_from_liquidity_tokens(1000, 0, 10, 2000),
        Err(ErrorCodes::InsufficientLiquidity)
    );
}

#[test]
fn withdrawal_reports_overflow() {
    assert_eq!(
        get_amount_from_liquidity_tokens(u64::MAX, u64::MAX, u64::MAX, 1),
        Err(ErrorCodes::Overflow)
    );
}

#[test]
fn withdrawal_never_exceeds_reserves() {
    for burn in [1u64, 2, 3, 5, 7, 11, 13] {
        let (a, b) = get_amount_from_liquidity_tokens(1000, 4000, burn, 13).unwrap();
        assert!(a <= 1000 && b <= 4000);
    }
}
