//! Exchange operations: deposit, withdrawal and swap as pure transitions on
//! the pool record.
//!
//! Each operation validates its request against the current pool state,
//! computes the exact amounts to move, and commits the new state; the
//! surrounding host then performs the matching ledger transfers. Every
//! failure is detected before any transfer would be issued, so a failed
//! operation leaves the pool exactly as it was.

use vstd::prelude::*;
use crate::errors::ErrorCodes;
use crate::pool::PoolState;

verus! {

use crate::math::{
    quote,
    quote_value,
    get_quote,
    get_quote_spec,
    get_amount_out_with_fee,
    get_amount_out_spec,
    lemma_swap_preserves_product,
    lemma_div_below,
};
use crate::liquidity::{
    mint_amount_for_deposit,
    sqrt_floor,
    get_amount_from_liquidity_tokens,
    withdrawal_amounts_spec,
};
use vstd::arithmetic::mul::{lemma_mul_strict_inequality, lemma_mul_is_commutative};

/// Engine-wide configuration, fixed at deployment: the governing authority
/// and the swap fee rate in basis points.
pub struct AmmState {
    pub authority: u64,
    pub lp_fees_basis_points: u8,
}

/// Payload of the informational event announcing a deployment.
pub struct InitializeAMM {
    pub authority: u64,
    pub lp_fees_basis_points: u8,
}

/// Records the deployment configuration and returns it together with the
/// event payload announcing it. A `u8` fee rate is always a proper
/// basis-point rate.
pub fn initialize_amm(authority: u64, lp_fees_basis_points: u8) -> (r: (AmmState, InitializeAMM))
    ensures
        r.0.authority == authority,
        r.0.lp_fees_basis_points == lp_fees_basis_points,
        r.1.authority == authority,
        r.1.lp_fees_basis_points == lp_fees_basis_points,
{
    (
        AmmState { authority, lp_fees_basis_points },
        InitializeAMM { authority, lp_fees_basis_points },
    )
}

/// The claim units a deposit of `(amount_a, amount_b)` mints against `pool`:
/// the seeding deposit prices itself by the root of its own product; later
/// deposits mint in proportion to the share of reserve A they add.
pub open spec fn deposit_mint_value(pool: PoolState, amount_a: int, amount_b: int) -> int {
    if pool.lp_supply == 0 {
        sqrt_floor(amount_a * amount_b)
    } else {
        quote_value(amount_a, pool.reserve_a as int, pool.lp_supply as int)
    }
}

/// What `add_liquidity` returns for every request.
pub open spec fn add_liquidity_spec(
    pool: PoolState,
    amount_a_desired: u64,
    amount_b_desired: u64,
    amount_a_min: u64,
    amount_b_min: u64,
) -> Result<(u64, u64, u64), ErrorCodes> {
    match get_quote_spec(
        pool.reserve_a,
        pool.reserve_b,
        amount_a_desired,
        amount_b_desired,
        amount_a_min,
        amount_b_min,
    ) {
        Err(e) => Err(e),
        Ok(amounts) => {
            let lp = deposit_mint_value(pool, amounts.0 as int, amounts.1 as int);
            if pool.lp_supply == 0 && (amounts.0 == 0 || amounts.1 == 0) {
                Err(ErrorCodes::InsufficientAmountToDeposit)
            } else if lp > u64::MAX {
                Err(ErrorCodes::Overflow)
            } else if pool.reserve_a + amounts.0 > u64::MAX || pool.reserve_b + amounts.1
                > u64::MAX || pool.lp_supply + lp > u64::MAX {
                Err(ErrorCodes::Overflow)
            } else {
                Ok((amounts.0, amounts.1, lp as u64))
            }
        },
    }
}

/// Deposit: quotes the amounts that hold the pool's price ratio, mints the
/// matching claim units, and commits the grown reserves. The host must
/// transfer both assets into the pool before minting the returned claim
/// amount, so a mid-sequence failure never leaves claims minted against
/// undelivered funds.
pub fn add_liquidity(
    pool: &mut PoolState,
    amount_a_desired: u64,
    amount_b_desired: u64,
    amount_a_min: u64,
    amount_b_min: u64,
) -> (r: Result<(u64, u64, u64), ErrorCodes>)
    requires
        old(pool).wf(),
    ensures
        final(pool).wf(),
        final(pool).token_a_mint == old(pool).token_a_mint,
        final(pool).token_b_mint == old(pool).token_b_mint,
        final(pool).fee_basis_points == old(pool).fee_basis_points,
        r == add_liquidity_spec(
            *old(pool),
            amount_a_desired,
            amount_b_desired,
            amount_a_min,
            amount_b_min,
        ),
        r matches Ok(out) ==> (final(pool).reserve_a == old(pool).reserve_a + out.0 && final(pool).reserve_b == old(pool).reserve_b + out.1 && final(pool).lp_supply == old(pool).lp_supply + out.2 && out.0 <= amount_a_desired && out.1 <= amount_b_desired),
        r is Err ==> *final(pool) == *old(pool),
{
    let amounts = match get_quote(
        pool.reserve_a,
        pool.reserve_b,
        amount_a_desired,
        amount_b_desired,
        amount_a_min,
        amount_b_min,
    ) {
        Ok(v) => v,
        Err(e) => {
            return Err(e);
        },
    };
    let amount_a = amounts.0;
    let amount_b = amounts.1;
    let lp_minted: u64;
    if pool.lp_supply == 0 {
        if amount_a == 0 || amount_b == 0 {
            return Err(ErrorCodes::InsufficientAmountToDeposit);
        }
        lp_minted = mint_amount_for_deposit(amount_a, amount_b);
        proof {
            assert((amount_a as int) * (amount_b as int) >= 1) by (nonlinear_arith)
                requires
                    amount_a >= 1,
                    amount_b >= 1,
            ;
            assert(lp_minted >= 1) by (nonlinear_arith)
                requires
                    (amount_a as int) * (amount_b as int) < ((lp_minted as int) + 1) * ((
                    lp_minted as int) + 1),
                    (amount_a as int) * (amount_b as int) >= 1,
                    lp_minted >= 0,
            ;
        }
    } else {
        lp_minted = match quote(amount_a, pool.reserve_a, pool.lp_supply) {
            Ok(v) => v,
            Err(e) => {
                return Err(e);
            },
        };
    }
    if pool.reserve_a > u64::MAX - amount_a {
        return Err(ErrorCodes::Overflow);
    }
    if pool.reserve_b > u64::MAX - amount_b {
        return Err(ErrorCodes::Overflow);
    }
    if pool.lp_supply > u64::MAX - lp_minted {
        return Err(ErrorCodes::Overflow);
    }
    pool.apply_deposit(amount_a, amount_b, lp_minted);
    Ok((amount_a, amount_b, lp_minted))
}

/// What `remove_liquidity` returns for every request.
pub open spec fn remove_liquidity_spec(
    pool: PoolState,
    liquidity_tokens: u64,
    amount_a_min: u64,
    amount_b_min: u64,
) -> Result<(u64, u64), ErrorCodes> {
    if liquidity_tokens == 0 || liquidity_tokens > pool.lp_supply {
        Err(ErrorCodes::InsufficientLiquidityTokens)
    } else {
        match withdrawal_amounts_spec(
            pool.reserve_a,
            pool.reserve_b,
            liquidity_tokens,
            pool.lp_supply,
        ) {
            Err(e) => Err(e),
            Ok(amounts) => if amounts.0 < amount_a_min {
                Err(ErrorCodes::InsufficientTokenAAmount)
            } else if amounts.1 < amount_b_min {
                Err(ErrorCodes::InsufficientTokenBAmount)
            } else {
                Ok(amounts)
            },
        }
    }
}

/// Withdrawal: burns the submitted claim units and pays out the
/// proportional share of both reserves, bounded by the caller's declared
/// minimums. Burning the whole supply returns both reserves exactly and
/// leaves the pool empty, ready to be re-seeded at a fresh price.
pub fn remove_liquidity(
    pool: &mut PoolState,
    liquidity_tokens: u64,
    amount_a_min: u64,
    amount_b_min: u64,
) -> (r: Result<(u64, u64), ErrorCodes>)
    requires
        old(pool).wf(),
    ensures
        final(pool).wf(),
        final(pool).token_a_mint == old(pool).token_a_mint,
        final(pool).token_b_mint == old(pool).token_b_mint,
        final(pool).fee_basis_points == old(pool).fee_basis_points,
        r == remove_liquidity_spec(*old(pool), liquidity_tokens, amount_a_min, amount_b_min),
        r matches Ok(amounts) ==> (final(pool).reserve_a == old(pool).reserve_a - amounts.0
            && final(pool).reserve_b == old(pool).reserve_b - amounts.1 && final(pool).lp_supply
            == old(pool).lp_supply - liquidity_tokens && amounts.0 <= old(pool).reserve_a
            && amounts.1 <= old(pool).reserve_b),
        r is Err ==> *final(pool) == *old(pool),
        liquidity_tokens == old(pool).lp_supply && r is Ok ==> final(pool).reserve_a == 0 && final(pool).reserve_b == 0 && final(pool).lp_supply == 0,
{
    if liquidity_tokens == 0 || liquidity_tokens > pool.lp_supply {
        return Err(ErrorCodes::InsufficientLiquidityTokens);
    }
    let amounts = match get_amount_from_liquidity_tokens(
        pool.reserve_a,
        pool.reserve_b,
        liquidity_tokens,
        pool.lp_supply,
    ) {
        Ok(v) => v,
        Err(e) => {
            return Err(e);
        },
    };
    if amounts.0 < amount_a_min {
        return Err(ErrorCodes::InsufficientTokenAAmount);
    }
    if amounts.1 < amount_b_min {
        return Err(ErrorCodes::InsufficientTokenBAmount);
    }
    proof {
        if liquidity_tokens < pool.lp_supply {
            lemma_mul_strict_inequality(
                liquidity_tokens as int,
                pool.lp_supply as int,
                pool.reserve_a as int,
            );
            lemma_div_below(
                (liquidity_tokens as int) * (pool.reserve_a as int),
                pool.lp_supply as int,
                pool.reserve_a as int,
            );
            lemma_mul_strict_inequality(
                liquidity_tokens as int,
                pool.lp_supply as int,
                pool.reserve_b as int,
            );
            lemma_div_below(
                (liquidity_tokens as int) * (pool.reserve_b as int),
                pool.lp_supply as int,
                pool.reserve_b as int,
            );
        }
    }
    pool.apply_withdrawal(amounts.0, amounts.1, liquidity_tokens);
    Ok(amounts)
}

/// What `swap_token_for_token` returns for every request.
pub open spec fn swap_spec(
    pool: PoolState,
    amount_in_mint: u64,
    amount_in: u64,
    amount_out_min: u64,
) -> Result<u64, ErrorCodes> {
    if amount_in_mint == pool.token_a_mint {
        match get_amount_out_spec(amount_in, pool.reserve_a, pool.reserve_b,
            pool.fee_basis_points) {
            Err(e) => Err(e),
            Ok(amount_out) => if amount_out < amount_out_min {
                Err(ErrorCodes::InsufficientOutputAmountForSwap)
            } else if pool.reserve_a + amount_in > u64::MAX {
                Err(ErrorCodes::Overflow)
            } else {
                Ok(amount_out)
            },
        }
    } else if amount_in_mint == pool.token_b_mint {
        match get_amount_out_spec(amount_in, pool.reserve_b, pool.reserve_a,
            pool.fee_basis_points) {
            Err(e) => Err(e),
            Ok(amount_out) => if amount_out < amount_out_min {
                Err(ErrorCodes::InsufficientOutputAmountForSwap)
            } else if pool.reserve_b + amount_in > u64::MAX {
                Err(ErrorCodes::Overflow)
            } else {
                Ok(amount_out)
            },
        }
    } else {
        Err(ErrorCodes::InvalidTokenMint)
    }
}

/// Swap: resolves which pool asset the declared input mint sells, prices the
/// trade with the fee-adjusted constant-product formula, enforces the
/// caller's minimum output, and commits the moved reserves. Across every
/// accepted swap the product of the reserves never decreases, and strictly
/// increases whenever the fee is positive.
pub fn swap_token_for_token(
    pool: &mut PoolState,
    amount_in_mint: u64,
    amount_in: u64,
    amount_out_min: u64,
) -> (r: Result<u64, ErrorCodes>)
    requires
        old(pool).wf(),
    ensures
        final(pool).wf(),
        final(pool).token_a_mint == old(pool).token_a_mint,
        final(pool).token_b_mint == old(pool).token_b_mint,
        final(pool).fee_basis_points == old(pool).fee_basis_points,
        final(pool).lp_supply == old(pool).lp_supply,
        r == swap_spec(*old(pool), amount_in_mint, amount_in, amount_out_min),
        r is Err ==> *final(pool) == *old(pool),
        r matches Ok(amount_out) ==> (if amount_in_mint == old(pool).token_a_mint {
            final(pool).reserve_a == old(pool).reserve_a + amount_in && final(pool).reserve_b
                == old(pool).reserve_b - amount_out
        } else {
            final(pool).reserve_b == old(pool).reserve_b + amount_in && final(pool).reserve_a
                == old(pool).reserve_a - amount_out
        }),
        r is Ok ==> (final(pool).reserve_a as int) * (final(pool).reserve_b as int) >= (old(pool).reserve_a as int) * (old(pool).reserve_b as int),
        r is Ok && old(pool).fee_basis_points > 0 ==> (final(pool).reserve_a as int) * (final(pool).reserve_b as int) > (old(pool).reserve_a as int) * (old(pool).reserve_b as int),
{
    let input_is_a: bool;
    if amount_in_mint == pool.token_a_mint {
        input_is_a = true;
    } else if amount_in_mint == pool.token_b_mint {
        input_is_a = false;
    } else {
        return Err(ErrorCodes::InvalidTokenMint);
    }
    let reserve_in: u64 = if input_is_a {
        pool.reserve_a
    } else {
        pool.reserve_b
    };
    let reserve_out: u64 = if input_is_a {
        pool.reserve_b
    } else {
        pool.reserve_a
    };
    let amount_out = match get_amount_out_with_fee(
        amount_in,
        reserve_in,
        reserve_out,
        pool.fee_basis_points,
    ) {
        Ok(v) => v,
        Err(e) => {
            return Err(e);
        },
    };
    if amount_out < amount_out_min {
        return Err(ErrorCodes::InsufficientOutputAmountForSwap);
    }
    if reserve_in > u64::MAX - amount_in {
        return Err(ErrorCodes::Overflow);
    }
    proof {
        lemma_swap_preserves_product(
            amount_in as int,
            reserve_in as int,
            reserve_out as int,
            pool.fee_basis_points as int,
        );
        lemma_mul_is_commutative(reserve_in as int, reserve_out as int);
        lemma_mul_is_commutative(
            (reserve_in + amount_in) as int,
            (reserve_out - amount_out) as int,
        );
    }
    pool.apply_swap(input_is_a, amount_in, amount_out);
    Ok(amount_out)
}

} // verus!
