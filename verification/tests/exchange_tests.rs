use simple_amm::errors::ErrorCodes;
use simple_amm::exchange::{add_liquidity, initialize_amm, remove_liquidity, swap_token_for_token};
use simple_amm::pool::PoolState;

const MINT_A: u64 = 7;
const MINT_B: u64 = 9;

fn seeded_pool() -> PoolState {
    PoolState {
        token_a_mint: MINT_A,
        token_b_mint: MINT_B,
        reserve_a: 1000,
        reserve_b: 4000,
        lp_supply: 2000,
        fee_basis_points: 30,
    }
}

#[test]
fn initialize_records_configuration() {
    let (state, event) = initialize_amm(42, 30);
    assert_eq!(state.authority, 42);
    assert_eq!(state.lp_fees_basis_points, 30);
    assert_eq!(event.authority, 42);
    assert_eq!(event.lp_fees_basis_points, 30);
}

#[test]
fn new_pool_is_empty() {
    let pool = PoolState::new(MINT_A, MINT_B, 30);
    assert_eq!(pool.reserve_a, 0);
    assert_eq!(pool.reserve_b, 0);
    assert_eq!(pool.lp_supply, 0);
    assert_eq!(pool.fee_basis_points, 30);
}

#[test]
fn first_deposit_seeds_the_pool() {
    let mut pool = PoolState::new(MINT_A, MINT_B, 30);
    let out = add_liquidity(&mut pool, 1000, 4000, 0, 0);
    assert_eq!(out, Ok((1000, 4000, 2000)));
    assert_eq!(pool.reserve_a, 1000);
    assert_eq!(pool.reserve_b, 4000);
    assert_eq!(pool.lp_supply, 2000);
}

#[test]
fn first_deposit_rejects_a_one_sided_amount() {
    let mut pool = PoolState::new(MINT_A, MINT_B, 30);
    assert_eq!(
        add_liquidity(&mut pool, 0, 4000, 0, 0),
        Err(ErrorCodes::InsufficientAmountToDeposit)
    );
    assert_eq!(
        add_liquidity(&mut pool, 1000, 0, 0, 0),
        Err(ErrorCodes::InsufficientAmountToDeposit)
    );
    assert_eq!(pool.lp_supply, 0);
}

#[test]
fn later_deposit_mints_proportionally() {
    let mut pool = seeded_pool();
    let out = add_liquidity(&mut pool, 500, 2000, 0, 0);
    // lp minted = 500 * 2000 / 1000 = 1000
    assert_eq!(out, Ok((500, 2000, 1000)));
    assert_eq!(pool.reserve_a, 1500);
    assert_eq!(pool.reserve_b, 6000);
    assert_eq!(pool.lp_supply, 3000);
}

#[test]
fn deposit_failure_leaves_pool_unchanged() {
    let mut pool = seeded_pool();
    assert_eq!(
        add_liquidity(&mut pool, 500, 4000, 0, 2000),
        Err(ErrorCodes::InsufficientTokenBAmount)
    );
    assert_eq!(pool.reserve_a, 1000);
    assert_eq!(pool.reserve_b, 4000);
    assert_eq!(pool.lp_supply, 2000);
}

#[test]
fn deposit_overflow_is_reported() {
    let mut pool = PoolState {
        token_a_mint: MINT_A,
        token_b_mint: MINT_B,
        reserve_a: u64::MAX,
        reserve_b: u64::MAX,
        lp_supply: u64::MAX,
        fee_basis_points: 30,
    };
    assert_eq!(add_liquidity(&mut pool, 10, 10, 0, 0), Err(ErrorCodes::Overflow));
    assert_eq!(pool.reserve_a, u64::MAX);
}

#[test]
fn withdraw_zero_claim_units_fails() {
    let mut pool = seeded_pool();
    assert_eq!(
        remove_liquidity(&mut pool, 0, 0, 0),
        Err(ErrorCodes::InsufficientLiquidityTokens)
    );
}

#[test]
fn withdraw_more_than_supply_fails() {
    let mut pool = seeded_pool();
    assert_eq!(
        remove_liquidity(&mut pool, 3000, 0, 0),
        Err(ErrorCodes::InsufficientLiquidityTokens)
    );
    assert_eq!(pool.lp_supply, 2000);
}

#[test]
fn partial_withdrawal_pays_the_proportional_share() {
    let mut pool = seeded_pool();
    assert_eq!(remove_liquidity(&mut pool, 1000, 500, 2000), Ok((500, 2000)));
    assert_eq!(pool.reserve_a, 500);
    assert_eq!(pool.reserve_b, 2000);
    assert_eq!(pool.lp_supply, 1000);
}

#[test]
fn withdrawal_minimums_accept_equality_and_reject_shortfall() {
    let mut pool = seeded_pool();
    assert_eq!(
        remove_liquidity(&mut pool, 1000, 501, 0),
        Err(ErrorCodes::InsufficientTokenAAmount)
    );
    assert_eq!(
        remove_liquidity(&mut pool, 1000, 0, 2001),
        Err(ErrorCodes::InsufficientTokenBAmount)
    );
    assert_eq!(pool.reserve_a, 1000);
    assert_eq!(remove_liquidity(&mut pool, 1000, 500, 2000), Ok((500, 2000)));
}

#[test]
fn full_withdrawal_drains_the_pool_exactly() {
    let mut pool = seeded_pool();
    assert_eq!(remove_liquidity(&mut pool, 2000, 0, 0), Ok((1000, 4000)));
    assert_eq!(pool.reserve_a, 0);
    assert_eq!(pool.reserve_b, 0);
    assert_eq!(pool.lp_supply, 0);
    // the emptied pool accepts a fresh seeding deposit at a new price
    assert_eq!(add_liquidity(&mut pool, 9, 4, 0, 0), Ok((9, 4, 6)));
}

#[test]
fn swap_a_for_b_matches_the_formula() {
    let mut pool = seeded_pool();
    let out = swap_token_for_token(&mut pool, MINT_A, 100, 0);
    assert_eq!(out, Ok(362));
    assert_eq!(pool.reserve_a, 1100);
    assert_eq!(pool.reserve_b, 3638);
    assert_eq!(pool.lp_supply, 2000);
}

#[test]
fn swap_grows_the_reserve_product() {
    let mut pool = seeded_pool();
    let before = (pool.reserve_a as u128) * (pool.reserve_b as u128);
    swap_token_for_token(&mut pool, MINT_A, 100, 0).unwrap();
    let after = (pool.reserve_a as u128) * (pool.reserve_b as u128);
    assert!(after > before);
}

#[test]
fn swap_b_for_a() {
    let mut pool = seeded_pool();
    // in_fee = 400 * 9970 = 3988000
    // floor(3988000 * 1000 / (4000 * 10000 + 3988000)) = 90
    assert_eq!(swap_token_for_token(&mut pool, MINT_B, 400, 0), Ok(90));
    assert_eq!(pool.reserve_a, 910);
    assert_eq!(pool.reserve_b, 4400);
}

#[test]
fn swap_zero_input_fails() {
    let mut pool = seeded_pool();
    assert_eq!(
        swap_token_for_token(&mut pool, MINT_A, 0, 0),
        Err(ErrorCodes::InsufficientInputAmountForSwap)
    );
}

#[test]
fn swap_with_unknown_mint_fails() {
    let mut pool = seeded_pool();
    assert_eq!(
        swap_token_for_token(&mut pool, 999, 100, 0),
        Err(ErrorCodes::InvalidTokenMint)
    );
    assert_eq!(pool.reserve_a, 1000);
    assert_eq!(pool.reserve_b, 4000);
}

#[test]
fn swap_minimum_output_accepts_equality() {
    let mut pool = seeded_pool();
    assert_eq!(
        swap_token_for_token(&mut pool, MINT_A, 100, 363),
        Err(ErrorCodes::InsufficientOutputAmountForSwap)
    );
    assert_eq!(pool.reserve_a, 1000);
    assert_eq!(swap_token_for_token(&mut pool, MINT_A, 100, 362), Ok(362));
}

#[test]
fn swap_on_empty_pool_fails() {
    let mut pool = PoolState::new(MINT_A, MINT_B, 30);
    assert_eq!(
        swap_token_for_token(&mut pool, MINT_A, 100, 0),
        Err(ErrorCodes::InsufficientLiquidity)
    );
}
