use vstd::prelude::*;

verus! {

/// Failure taxonomy of the engine. Every operation detects its failure before
/// any ledger transfer would be issued, so a caller that sees one of these has
/// observed no state change.
#[derive(Clone, Copy, Debug, PartialEq, Eq, Structural)]
pub enum ErrorCodes {
    /// A deposit amount that must be positive was zero.
    InsufficientAmountToDeposit,
    /// A reserve is zero where a price ratio requires dividing by it.
    InsufficientLiquidity,
    /// The quoted amount of asset B breaches the caller's minimum bound.
    InsufficientTokenBAmount,
    /// The quoted amount of asset A breaches the caller's minimum bound.
    InsufficientTokenAAmount,
    /// The declared swap input asset matches neither asset of the pool.
    InvalidTokenMint,
    /// The swap input amount was zero.
    InsufficientInputAmountForSwap,
    /// The computed swap output is below the caller's minimum bound.
    InsufficientOutputAmountForSwap,
    /// Zero liquidity-claim units were submitted for burning, or more than
    /// the outstanding supply.
    InsufficientLiquidityTokens,
    /// A computed amount does not fit the 64-bit balance width.
    Overflow,
}

} // verus!
