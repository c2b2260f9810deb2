//! Pure pricing math: proportional quotes and the fee-adjusted
//! constant-product swap output formula.

use vstd::prelude::*;
use crate::errors::ErrorCodes;

verus! {

use vstd::arithmetic::div_mod::{lemma_fundamental_div_mod, lemma_mod_bound};
use vstd::arithmetic::mul::{lemma_mul_inequality, lemma_mul_left_inequality};

/// Swap fee charged on every trade, in basis points (1/10000).
pub const LP_FEES_BASIS_POINTS: u64 = 30;

/// Denominator of the basis-point scale.
pub const BASIS_POINT_SCALE: u64 = 10000;

/// The amount of asset B matching `amount_a` at the reserve ratio
/// `reserve_b / reserve_a`, rounded down.
pub open spec fn quote_value(amount_a: int, reserve_a: int, reserve_b: int) -> int {
    (amount_a * reserve_b) / reserve_a
}

/// What `quote` returns for every input.
pub open spec fn quote_spec(amount_a: u64, reserve_a: u64, reserve_b: u64) -> Result<
    u64,
    ErrorCodes,
> {
    if amount_a == 0 {
        Err(ErrorCodes::InsufficientAmountToDeposit)
    } else if reserve_a == 0 || reserve_b == 0 {
        Err(ErrorCodes::InsufficientLiquidity)
    } else if quote_value(amount_a as int, reserve_a as int, reserve_b as int) > u64::MAX {
        Err(ErrorCodes::Overflow)
    } else {
        Ok(quote_value(amount_a as int, reserve_a as int, reserve_b as int) as u64)
    }
}

/// Computes the proportional amount of asset B matching `amount_a` at the
/// current reserve ratio: `floor(amount_a * reserve_b / reserve_a)`.
///
/// The truncation rounds in the pool's favor: the caller never receives the
/// fractional remainder.
pub fn quote(amount_a: u64, token_a_reserves: u64, token_b_reserves: u64) -> (r: Result<
    u64,
    ErrorCodes,
>)
    ensures
        r == quote_spec(amount_a, token_a_reserves, token_b_reserves),
        r matches Ok(amount_b) ==> amount_b == quote_value(
            amount_a as int,
            token_a_reserves as int,
            token_b_reserves as int,
        ),
{
    if amount_a == 0 {
        return Err(ErrorCodes::InsufficientAmountToDeposit);
    }
    if token_a_reserves == 0 || token_b_reserves == 0 {
        return Err(ErrorCodes::InsufficientLiquidity);
    }
    proof {
        assert((amount_a as int) * (token_b_reserves as int) <= u128::MAX) by (nonlinear_arith)
            requires
                amount_a <= u64::MAX,
                token_b_reserves <= u64::MAX,
        ;
    }
    let product: u128 = (amount_a as u128) * (token_b_reserves as u128);
    let amount_b: u128 = product / (token_a_reserves as u128);
    if amount_b > u64::MAX as u128 {
        return Err(ErrorCodes::Overflow);
    }
    Ok(amount_b as u64)
}

/// For a positive divisor, a product stays within a bound exactly when the
/// first factor is at most the bound divided by the second.
pub proof fn lemma_mul_fits_iff_div(x: int, y: int, m: int)
    requires
        x >= 0,
        y > 0,
        m >= 0,
    ensures
        x * y <= m <==> x <= m / y,
{
    let q = m / y;
    let r = m % y;
    lemma_fundamental_div_mod(m, y);
    lemma_mod_bound(m, y);
    assert(x * y <= m <==> x <= q) by (nonlinear_arith)
        requires
            m == y * q + r,
            0 <= r < y,
            x >= 0,
            y > 0,
    ;
}

/// A numerator strictly below `d * b` has a quotient strictly below `b`.
pub proof fn lemma_div_below(n: int, d: int, b: int)
    requires
        0 <= n,
        0 < d,
        n < d * b,
    ensures
        n / d < b,
{
    let q = n / d;
    let r = n % d;
    lemma_fundamental_div_mod(n, d);
    lemma_mod_bound(n, d);
    assert(q < b) by (nonlinear_arith)
        requires
            n == d * q + r,
            0 <= r < d,
            n < d * b,
            d > 0,
    ;
}

/// The swap input after the fee is deducted, still scaled by the
/// basis-point denominator.
pub open spec fn amount_in_with_fee_value(amount_in: int, fee_bps: int) -> int {
    amount_in * (BASIS_POINT_SCALE - fee_bps)
}

/// The constant-product swap output: the fee-reduced input applied to the
/// reserve ratio, rounded down. The denominator keeps the full input in the
/// pool's favor, so the output is always strictly below `reserve_out`.
pub open spec fn amount_out_value(
    amount_in: int,
    reserve_in: int,
    reserve_out: int,
    fee_bps: int,
) -> int {
    let in_fee = amount_in_with_fee_value(amount_in, fee_bps);
    (in_fee * reserve_out) / (reserve_in * BASIS_POINT_SCALE + in_fee)
}

/// What `get_amount_out_with_fee` returns for every input.
pub open spec fn get_amount_out_spec(
    amount_in: u64,
    reserve_in: u64,
    reserve_out: u64,
    fee_bps: u64,
) -> Result<u64, ErrorCodes> {
    if amount_in == 0 {
        Err(ErrorCodes::InsufficientInputAmountForSwap)
    } else if reserve_in == 0 || reserve_out == 0 {
        Err(ErrorCodes::InsufficientLiquidity)
    } else if amount_in_with_fee_value(amount_in as int, fee_bps as int) * (reserve_out as int)
        > u128::MAX {
        Err(ErrorCodes::Overflow)
    } else {
        Ok(
            amount_out_value(
                amount_in as int,
                reserve_in as int,
                reserve_out as int,
                fee_bps as int,
            ) as u64,
        )
    }
}

/// Constant-product swap output with the fee deducted from the input:
/// `floor(amount_in * (10000 - fee) * reserve_out /
///        (reserve_in * 10000 + amount_in * (10000 - fee)))`.
///
/// The output is strictly below `reserve_out`: one swap can never drain a
/// reserve completely.
pub fn get_amount_out_with_fee(
    amount_in: u64,
    reserve_in: u64,
    reserve_out: u64,
    fee_basis_points: u64,
) -> (r: Result<u64, ErrorCodes>)
    requires
        fee_basis_points < BASIS_POINT_SCALE,
    ensures
        r == get_amount_out_spec(amount_in, reserve_in, reserve_out, fee_basis_points),
        r matches Ok(amount_out) ==> amount_out < reserve_out,
{
    if amount_in == 0 {
        return Err(ErrorCodes::InsufficientInputAmountForSwap);
    }
    if reserve_in == 0 || reserve_out == 0 {
        return Err(ErrorCodes::InsufficientLiquidity);
    }
    let fee_multiplier: u64 = BASIS_POINT_SCALE - fee_basis_points;
    proof {
        assert((amount_in as int) * (fee_multiplier as int) <= (u64::MAX as int) * 10000)
            by (nonlinear_arith)
            requires
                amount_in <= u64::MAX,
                fee_multiplier <= 10000u64,
        ;
        assert((amount_in as int) * (fee_multiplier as int) >= 1) by (nonlinear_arith)
            requires
                amount_in >= 1,
                fee_multiplier >= 1,
        ;
    }
    let amount_in_with_fee: u128 = (amount_in as u128) * (fee_multiplier as u128);
    proof {
        lemma_mul_fits_iff_div(amount_in_with_fee as int, reserve_out as int, u128::MAX as int);
    }
    if amount_in_with_fee > u128::MAX / (reserve_out as u128) {
        return Err(ErrorCodes::Overflow);
    }
    let numerator: u128 = amount_in_with_fee * (reserve_out as u128);
    let denominator: u128 = (reserve_in as u128) * (BASIS_POINT_SCALE as u128)
        + amount_in_with_fee;
    let amount_out: u128 = numerator / denominator;
    proof {
        let n = numerator as int;
        let d = denominator as int;
        let rem = n % d;
        lemma_fundamental_div_mod(n, d);
        lemma_mod_bound(n, d);
        assert(amount_out < reserve_out) by (nonlinear_arith)
            requires
                n == d * (amount_out as int) + rem,
                0 <= rem < d,
                n == (amount_in_with_fee as int) * (reserve_out as int),
                0 < amount_in_with_fee < denominator,
                d == denominator as int,
                reserve_out > 0,
                amount_out >= 0,
        ;
    }
    Ok(amount_out as u64)
}

/// When the quote of `a_des` into asset B overshoots `b_des`, the reverse
/// quote of `b_des` into asset A lands strictly below `a_des`: the deposit
/// path never asks for more than either desired amount.
pub proof fn lemma_counter_quote_bounded(a_des: int, b_des: int, ra: int, rb: int)
    requires
        ra > 0,
        rb > 0,
        a_des >= 0,
        b_des >= 0,
        quote_value(a_des, ra, rb) > b_des,
    ensures
        quote_value(b_des, rb, ra) < a_des,
{
    let bq = quote_value(a_des, ra, rb);
    let aq = quote_value(b_des, rb, ra);
    let r1 = (a_des * rb) % ra;
    let r2 = (b_des * ra) % rb;
    lemma_fundamental_div_mod(a_des * rb, ra);
    lemma_mod_bound(a_des * rb, ra);
    lemma_fundamental_div_mod(b_des * ra, rb);
    lemma_mod_bound(b_des * ra, rb);
    assert(aq < a_des) by (nonlinear_arith)
        requires
            a_des * rb == ra * bq + r1,
            0 <= r1 < ra,
            b_des * ra == rb * aq + r2,
            0 <= r2 < rb,
            bq > b_des,
            ra > 0,
            rb > 0,
            a_des >= 0,
            b_des >= 0,
    ;
}

/// What `get_quote` returns for every input: the deposit-quoting decision
/// tree, with the two inner quotes given by `quote_spec`.
pub open spec fn get_quote_spec(
    reserve_a: u64,
    reserve_b: u64,
    amount_a_desired: u64,
    amount_b_desired: u64,
    amount_a_min: u64,
    amount_b_min: u64,
) -> Result<(u64, u64), ErrorCodes> {
    if reserve_a == 0 && reserve_b == 0 {
        Ok((amount_a_desired, amount_b_desired))
    } else {
        match quote_spec(amount_a_desired, reserve_a, reserve_b) {
            Err(e) => Err(e),
            Ok(amount_b_optimal) => if amount_b_optimal <= amount_b_desired {
                if amount_b_optimal > amount_b_min {
                    Ok((amount_a_desired, amount_b_optimal))
                } else {
                    Err(ErrorCodes::InsufficientTokenBAmount)
                }
            } else {
                match quote_spec(amount_b_desired, reserve_b, reserve_a) {
                    Err(e) => Err(e),
                    Ok(amount_a_optimal) => if amount_a_optimal > amount_a_min {
                        Ok((amount_a_optimal, amount_b_desired))
                    } else {
                        Err(ErrorCodes::InsufficientTokenAAmount)
                    },
                }
            },
        }
    }
}

/// Deposit quote: how much of each asset a deposit may move, holding the
/// pool's price ratio.
///
/// On an empty pool the desired amounts are accepted unchanged — the first
/// depositor sets the price. Otherwise one side is fixed at its desired
/// amount and the other follows the ratio; the result never exceeds either
/// desired amount, and the caller's minimum bound on the followed side must
/// be strictly undercut or the quote is rejected.
pub fn get_quote(
    token_a_reserves: u64,
    token_b_reserves: u64,
    amount_a_desired: u64,
    amount_b_desired: u64,
    amount_a_min: u64,
    amount_b_min: u64,
) -> (r: Result<(u64, u64), ErrorCodes>)
    ensures
        r == get_quote_spec(
            token_a_reserves,
            token_b_reserves,
            amount_a_desired,
            amount_b_desired,
            amount_a_min,
            amount_b_min,
        ),
        r matches Ok(amounts) ==> amounts.0 <= amount_a_desired && amounts.1
            <= amount_b_desired,
{
    if token_a_reserves == 0 && token_b_reserves == 0 {
        return Ok((amount_a_desired, amount_b_desired));
    }
    let amount_b_optimal = match quote(amount_a_desired, token_a_reserves, token_b_reserves) {
        Ok(v) => v,
        Err(e) => {
            return Err(e);
        },
    };
    if amount_b_optimal <= amount_b_desired {
        if amount_b_optimal > amount_b_min {
            Ok((amount_a_desired, amount_b_optimal))
        } else {
            Err(ErrorCodes::InsufficientTokenBAmount)
        }
    } else {
        let amount_a_optimal = match quote(amount_b_desired, token_b_reserves, token_a_reserves) {
            Ok(v) => v,
            Err(e) => {
                return Err(e);
            },
        };
        proof {
            lemma_counter_quote_bounded(
                amount_a_desired as int,
                amount_b_desired as int,
                token_a_reserves as int,
                token_b_reserves as int,
            );
        }
        if amount_a_optimal > amount_a_min {
            Ok((amount_a_optimal, amount_b_desired))
        } else {
            Err(ErrorCodes::InsufficientTokenAAmount)
        }
    }
}

/// The quote's floor division only ever rounds against the caller: the
/// quoted amount of B, scaled back by `reserve_a`, never exceeds the exact
/// proportional value `amount_a * reserve_b`.
pub proof fn lemma_quote_rounds_down(amount_a: int, reserve_a: int, reserve_b: int)
    requires
        reserve_a > 0,
        amount_a >= 0,
        reserve_b >= 0,
    ensures
        quote_value(amount_a, reserve_a, reserve_b) * reserve_a <= amount_a * reserve_b,
{
    let n = amount_a * reserve_b;
    let q = n / reserve_a;
    let rem = n % reserve_a;
    lemma_fundamental_div_mod(n, reserve_a);
    lemma_mod_bound(n, reserve_a);
    assert(q * reserve_a <= n) by (nonlinear_arith)
        requires
            n == reserve_a * q + rem,
            0 <= rem,
    ;
}

/// The swap output's floor division only ever rounds against the trader:
/// the output, scaled back by the denominator, never exceeds the exact
/// constant-product value.
pub proof fn lemma_amount_out_rounds_down(
    amount_in: int,
    reserve_in: int,
    reserve_out: int,
    fee_bps: int,
)
    requires
        0 < amount_in,
        0 < reserve_in,
        0 < reserve_out,
        0 <= fee_bps < BASIS_POINT_SCALE,
    ensures
        amount_out_value(amount_in, reserve_in, reserve_out, fee_bps) * (reserve_in
            * BASIS_POINT_SCALE + amount_in_with_fee_value(amount_in, fee_bps))
            <= amount_in_with_fee_value(amount_in, fee_bps) * reserve_out,
{
    let scale = BASIS_POINT_SCALE as int;
    let in_fee = amount_in_with_fee_value(amount_in, fee_bps);
    let d = reserve_in * scale + in_fee;
    let n = in_fee * reserve_out;
    assert(in_fee > 0 && reserve_in * scale > 0) by (nonlinear_arith)
        requires
            amount_in > 0,
            reserve_in > 0,
            0 <= fee_bps < scale,
            scale == 10000,
            in_fee == amount_in * (scale - fee_bps),
    ;
    let q = n / d;
    let rem = n % d;
    lemma_fundamental_div_mod(n, d);
    lemma_mod_bound(n, d);
    assert(q * d <= n) by (nonlinear_arith)
        requires
            n == d * q + rem,
            0 <= rem,
    ;
}

/// The constant-product invariant never decreases across a swap, and
/// strictly increases whenever a positive fee is charged: after paying out
/// the swap output, the product of the two reserves is at least what it was.
pub proof fn lemma_swap_preserves_product(
    amount_in: int,
    reserve_in: int,
    reserve_out: int,
    fee_bps: int,
)
    requires
        0 < amount_in,
        0 < reserve_in,
        0 < reserve_out,
        0 <= fee_bps < BASIS_POINT_SCALE,
    ensures
        ({
            let amount_out = amount_out_value(amount_in, reserve_in, reserve_out, fee_bps);
            &&& amount_out < reserve_out
            &&& (reserve_in + amount_in) * (reserve_out - amount_out) >= reserve_in * reserve_out
            &&& fee_bps > 0 ==> (reserve_in + amount_in) * (reserve_out - amount_out) > reserve_in
                * reserve_out
        }),
{
    let scale = BASIS_POINT_SCALE as int;
    let in_fee = amount_in * (scale - fee_bps);
    let d = reserve_in * scale + in_fee;
    let n = in_fee * reserve_out;
    let out = n / d;
    let rem = n % d;
    assert(in_fee > 0 && reserve_in * scale > 0 && n > 0) by (nonlinear_arith)
        requires
            amount_in > 0,
            reserve_in > 0,
            reserve_out > 0,
            0 <= fee_bps < scale,
            scale == 10000,
            in_fee == amount_in * (scale - fee_bps),
            n == in_fee * reserve_out,
    ;
    lemma_fundamental_div_mod(n, d);
    lemma_mod_bound(n, d);
    assert(n < d * reserve_out) by (nonlinear_arith)
        requires
            n == in_fee * reserve_out,
            in_fee < d,
            reserve_out > 0,
    ;
    lemma_div_below(n, d, reserve_out);
    assert(out >= 0) by (nonlinear_arith)
        requires
            n == d * out + rem,
            rem < d,
            n >= 0,
            d > 0,
    ;
    let gain = amount_in * fee_bps * (reserve_in * reserve_out);
    let grown = reserve_in + amount_in;
    let lhs = grown * (reserve_out - out);
    assert(out * d <= n) by (nonlinear_arith)
        requires
            n == d * out + rem,
            0 <= rem,
    ;
    lemma_mul_left_inequality(grown, out * d, n);
    assert(lhs * d == grown * reserve_out * d - grown * (out * d)) by (nonlinear_arith)
        requires
            lhs == grown * (reserve_out - out),
    ;
    assert(grown * reserve_out * d - grown * n == grown * reserve_out * (reserve_in * scale))
        by (nonlinear_arith)
        requires
            d == reserve_in * scale + in_fee,
            n == in_fee * reserve_out,
    ;
    assert(grown * reserve_out * (reserve_in * scale) == reserve_in * reserve_out * d + gain)
        by (nonlinear_arith)
        requires
            grown == reserve_in + amount_in,
            d == reserve_in * scale + in_fee,
            in_fee == amount_in * (scale - fee_bps),
            gain == amount_in * fee_bps * (reserve_in * reserve_out),
    ;
    assert(lhs * d >= reserve_in * reserve_out * d + gain);
    assert(gain >= 0 && (fee_bps > 0 ==> gain > 0)) by (nonlinear_arith)
        requires
            gain == amount_in * fee_bps * (reserve_in * reserve_out),
            amount_in > 0,
            reserve_in > 0,
            reserve_out > 0,
            fee_bps >= 0,
    ;
    assert(lhs >= reserve_in * reserve_out) by (nonlinear_arith)
        requires
            lhs * d >= reserve_in * reserve_out * d + gain,
            gain >= 0,
            d > 0,
    ;
    if fee_bps > 0 {
        assert(lhs > reserve_in * reserve_out) by (nonlinear_arith)
            requires
                lhs * d >= reserve_in * reserve_out * d + gain,
                gain > 0,
                d > 0,
        ;
    }
}

/// Swap output at the engine's fixed fee of `LP_FEES_BASIS_POINTS`.
pub fn get_amount_out(amount_in: u64, reserve_in: u64, reserve_out: u64) -> (r: Result<
    u64,
    ErrorCodes,
>)
    ensures
        r == get_amount_out_spec(amount_in, reserve_in, reserve_out, LP_FEES_BASIS_POINTS),
        r matches Ok(amount_out) ==> amount_out < reserve_out,
{
    get_amount_out_with_fee(amount_in, reserve_in, reserve_out, LP_FEES_BASIS_POINTS)
}

} // verus!
