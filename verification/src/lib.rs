//! Pricing and balance-accounting core of a two-asset constant-product
//! automated market maker.
//!
//! The library covers the integer math of the exchange: proportional deposit
//! quoting, the fee-adjusted swap output formula, liquidity-claim accounting,
//! and the pool state record with its invariants. Ledger transfers, account
//! validation and event emission are left to the surrounding host; the
//! functions here take plain reserve and amount values and return the exact
//! amounts the host must move.

pub mod errors;
pub mod math;
pub mod liquidity;
pub mod pool;
pub mod exchange;
