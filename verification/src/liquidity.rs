//! Liquidity-claim accounting: how many claim units a deposit mints and how
//! much of each reserve a burn returns.

use vstd::prelude::*;
use crate::errors::ErrorCodes;

verus! {

use vstd::arithmetic::div_mod::{
    lemma_fundamental_div_mod,
    lemma_mod_bound,
    lemma_div_is_ordered,
    lemma_div_multiples_vanish,
    lemma_div_pos_is_pos,
};
use vstd::arithmetic::mul::{lemma_mul_inequality, lemma_mul_is_commutative};

/// `root` is the square root of `n`, rounded down.
pub open spec fn is_sqrt_floor(n: int, root: int) -> bool {
    root >= 0 && root * root <= n && n < (root + 1) * (root + 1)
}

/// The square root of `n`, rounded down.
pub open spec fn sqrt_floor(n: int) -> int {
    choose|root: int| is_sqrt_floor(n, root)
}

/// A value has at most one floor square root, so any witness pins
/// `sqrt_floor` down.
pub proof fn lemma_sqrt_floor_unique(n: int, root: int)
    requires
        is_sqrt_floor(n, root),
    ensures
        sqrt_floor(n) == root,
{
    assert(exists|r: int| is_sqrt_floor(n, r)) by {
        assert(is_sqrt_floor(n, root));
    }
    let s = sqrt_floor(n);
    assert(is_sqrt_floor(n, s));
    assert(s == root) by (nonlinear_arith)
        requires
            root >= 0,
            root * root <= n,
            n < (root + 1) * (root + 1),
            s >= 0,
            s * s <= n,
            n < (s + 1) * (s + 1),
    ;
}

/// Square root of a 128-bit value, rounded down, by bisection over the
/// 64-bit result range.
pub fn integer_sqrt(value: u128) -> (root: u64)
    ensures
        is_sqrt_floor(value as int, root as int),
        root as int == sqrt_floor(value as int),
{
    let mut lo: u128 = 0;
    let mut hi: u128 = 0x1_0000_0000_0000_0000u128;
    proof {
        assert((0x1_0000_0000_0000_0000u128 as int) * (0x1_0000_0000_0000_0000u128 as int)
            > u128::MAX as int) by (nonlinear_arith);
    }
    while lo + 1 < hi
        invariant
            lo < hi <= 0x1_0000_0000_0000_0000u128,
            (lo as int) * (lo as int) <= value as int,
            (value as int) < (hi as int) * (hi as int),
        decreases hi - lo,
    {
        let mid: u128 = lo + (hi - lo) / 2;
        proof {
            assert((mid as int) * (mid as int) <= u128::MAX as int) by (nonlinear_arith)
                requires
                    mid <= 0xffff_ffff_ffff_ffffu128,
            ;
        }
        if mid * mid <= value {
            lo = mid;
        } else {
            hi = mid;
        }
    }
    proof {
        lemma_sqrt_floor_unique(value as int, lo as int);
    }
    lo as u64
}

/// Claim units minted for the deposit that seeds an empty pool:
/// the square root of `amount_a * amount_b`, rounded down. The product is
/// taken in a 128-bit accumulator, so two 64-bit amounts cannot overflow it.
pub fn mint_amount_for_deposit(amount_a: u64, amount_b: u64) -> (lp_tokens: u64)
    ensures
        is_sqrt_floor((amount_a as int) * (amount_b as int), lp_tokens as int),
        lp_tokens as int == sqrt_floor((amount_a as int) * (amount_b as int)),
{
    proof {
        assert((amount_a as int) * (amount_b as int) <= u128::MAX) by (nonlinear_arith)
            requires
                amount_a <= u64::MAX,
                amount_b <= u64::MAX,
        ;
    }
    let product: u128 = (amount_a as u128) * (amount_b as u128);
    integer_sqrt(product)
}

/// The share of one reserve that a burn of `liquidity_tokens` claim units
/// returns, rounded down.
pub open spec fn withdrawal_amount_value(
    liquidity_tokens: int,
    reserve: int,
    lp_supply: int,
) -> int {
    (liquidity_tokens * reserve) / lp_supply
}

/// What `get_amount_from_liquidity_tokens` returns for every input.
pub open spec fn withdrawal_amounts_spec(
    reserve_a: u64,
    reserve_b: u64,
    liquidity_tokens: u64,
    lp_supply: u64,
) -> Result<(u64, u64), ErrorCodes> {
    let amount_a = withdrawal_amount_value(
        liquidity_tokens as int,
        reserve_a as int,
        lp_supply as int,
    );
    let amount_b = withdrawal_amount_value(
        liquidity_tokens as int,
        reserve_b as int,
        lp_supply as int,
    );
    if liquidity_tokens == 0 {
        Err(ErrorCodes::InsufficientLiquidityTokens)
    } else if reserve_a == 0 || reserve_b == 0 {
        Err(ErrorCodes::InsufficientLiquidity)
    } else if amount_a > u64::MAX || amount_b > u64::MAX {
        Err(ErrorCodes::Overflow)
    } else {
        Ok((amount_a as u64, amount_b as u64))
    }
}

/// No free withdrawal, and full proportionality: a burn of at most the
/// outstanding supply never claims more than the reserve, a burn of the
/// whole supply claims the reserve exactly, and no claim is negative.
pub proof fn lemma_withdrawal_bounded(liquidity_tokens: int, reserve: int, lp_supply: int)
    requires
        0 < lp_supply,
        0 <= liquidity_tokens <= lp_supply,
        0 <= reserve,
    ensures
        0 <= withdrawal_amount_value(liquidity_tokens, reserve, lp_supply) <= reserve,
        liquidity_tokens == lp_supply ==> withdrawal_amount_value(
            liquidity_tokens,
            reserve,
            lp_supply,
        ) == reserve,
{
    lemma_mul_inequality(liquidity_tokens, lp_supply, reserve);
    lemma_div_is_ordered(liquidity_tokens * reserve, lp_supply * reserve, lp_supply);
    lemma_mul_is_commutative(lp_supply, reserve);
    lemma_div_multiples_vanish(reserve, lp_supply);
    if liquidity_tokens * reserve > 0 {
        lemma_div_pos_is_pos(liquidity_tokens * reserve, lp_supply);
    } else {
        assert(liquidity_tokens * reserve >= 0) by (nonlinear_arith)
            requires
                liquidity_tokens >= 0,
                reserve >= 0,
        ;
        assert(liquidity_tokens * reserve == 0);
        assert((0int) / lp_supply == 0);
    }
}

/// The floor in the withdrawal formula only ever rounds against the burner:
/// the amount handed out, scaled back by the supply, never exceeds the exact
/// proportional share.
pub proof fn lemma_withdrawal_rounds_down(liquidity_tokens: int, reserve: int, lp_supply: int)
    requires
        0 < lp_supply,
        0 <= liquidity_tokens,
        0 <= reserve,
    ensures
        withdrawal_amount_value(liquidity_tokens, reserve, lp_supply) * lp_supply
            <= liquidity_tokens * reserve,
{
    let n = liquidity_tokens * reserve;
    let q = n / lp_supply;
    let rem = n % lp_supply;
    lemma_fundamental_div_mod(n, lp_supply);
    lemma_mod_bound(n, lp_supply);
    assert(q * lp_supply <= n) by (nonlinear_arith)
        requires
            n == lp_supply * q + rem,
            0 <= rem,
    ;
}

/// Splits a burn of claim units into the two reserve amounts it returns:
/// `floor(liquidity_tokens * reserve / total_lp_token_supply)` for each
/// asset. A burn of the whole supply returns both reserves exactly; a
/// partial burn never returns more than the proportional share.
pub fn get_amount_from_liquidity_tokens(
    token_a_reserves: u64,
    token_b_reserves: u64,
    liquidity_tokens: u64,
    total_lp_token_supply: u64,
) -> (r: Result<(u64, u64), ErrorCodes>)
    requires
        total_lp_token_supply > 0,
    ensures
        r == withdrawal_amounts_spec(
            token_a_reserves,
            token_b_reserves,
            liquidity_tokens,
            total_lp_token_supply,
        ),
        liquidity_tokens <= total_lp_token_supply && 0 < liquidity_tokens && 0 < token_a_reserves
            && 0 < token_b_reserves ==> (r matches Ok(amounts) && amounts.0 <= token_a_reserves
            && amounts.1 <= token_b_reserves),
        liquidity_tokens == total_lp_token_supply && 0 < token_a_reserves && 0 < token_b_reserves
            ==> r == Ok::<(u64, u64), ErrorCodes>((token_a_reserves, token_b_reserves)),
{
    if liquidity_tokens == 0 {
        return Err(ErrorCodes::InsufficientLiquidityTokens);
    }
    if token_a_reserves == 0 || token_b_reserves == 0 {
        return Err(ErrorCodes::InsufficientLiquidity);
    }
    proof {
        assert((liquidity_tokens as int) * (token_a_reserves as int) <= u128::MAX)
            by (nonlinear_arith)
            requires
                liquidity_tokens <= u64::MAX,
                token_a_reserves <= u64::MAX,
        ;
        assert((liquidity_tokens as int) * (token_b_reserves as int) <= u128::MAX)
            by (nonlinear_arith)
            requires
                liquidity_tokens <= u64::MAX,
                token_b_reserves <= u64::MAX,
        ;
        if liquidity_tokens <= total_lp_token_supply {
            lemma_withdrawal_bounded(
                liquidity_tokens as int,
                token_a_reserves as int,
                total_lp_token_supply as int,
            );
            lemma_withdrawal_bounded(
                liquidity_tokens as int,
                token_b_reserves as int,
                total_lp_token_supply as int,
            );
        }
    }
    let supply: u128 = total_lp_token_supply as u128;
    let amount_a: u128 = (liquidity_tokens as u128) * (token_a_reserves as u128) / supply;
    let amount_b: u128 = (liquidity_tokens as u128) * (token_b_reserves as u128) / supply;
    if amount_a > u64::MAX as u128 || amount_b > u64::MAX as u128 {
        return Err(ErrorCodes::Overflow);
    }
    Ok((amount_a as u64, amount_b as u64))
}

} // verus!
