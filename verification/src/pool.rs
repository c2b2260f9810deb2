//! The per-pair pool record: the two asset identifiers, their reserves, the
//! outstanding liquidity-claim supply, and the swap fee.

use vstd::prelude::*;

verus! {

use crate::math::BASIS_POINT_SCALE;

/// The authoritative record of one asset pair's pool. The mint fields are
/// opaque identifiers of the two assets as registered with the ledger;
/// `lp_supply` counts the outstanding liquidity-claim units.
pub struct PoolState {
    pub token_a_mint: u64,
    pub token_b_mint: u64,
    pub reserve_a: u64,
    pub reserve_b: u64,
    pub lp_supply: u64,
    pub fee_basis_points: u64,
}

impl PoolState {
    /// Well-formedness: the fee is a proper basis-point rate, and claim
    /// units are outstanding exactly when both reserves are funded. A pool
    /// is empty (freshly registered or fully withdrawn) exactly when its
    /// claim supply is zero.
    pub open spec fn wf(self) -> bool {
        &&& self.fee_basis_points < BASIS_POINT_SCALE
        &&& (self.lp_supply == 0 ==> self.reserve_a == 0 && self.reserve_b == 0)
        &&& (self.lp_supply > 0 ==> self.reserve_a > 0 && self.reserve_b > 0)
    }

    /// A freshly registered, empty pool for the given asset pair.
    pub fn new(token_a_mint: u64, token_b_mint: u64, fee_basis_points: u64) -> (pool: PoolState)
        requires
            fee_basis_points < BASIS_POINT_SCALE,
        ensures
            pool.wf(),
            pool.token_a_mint == token_a_mint,
            pool.token_b_mint == token_b_mint,
            pool.reserve_a == 0,
            pool.reserve_b == 0,
            pool.lp_supply == 0,
            pool.fee_basis_points == fee_basis_points,
    {
        PoolState {
            token_a_mint,
            token_b_mint,
            reserve_a: 0,
            reserve_b: 0,
            lp_supply: 0,
            fee_basis_points,
        }
    }

    /// Commits a validated deposit: both reserves grow by the deposited
    /// amounts and the minted claim units join the supply.
    pub fn apply_deposit(&mut self, amount_a: u64, amount_b: u64, lp_minted: u64)
        requires
            old(self).reserve_a + amount_a <= u64::MAX,
            old(self).reserve_b + amount_b <= u64::MAX,
            old(self).lp_supply + lp_minted <= u64::MAX,
        ensures
            final(self).reserve_a == old(self).reserve_a + amount_a,
            final(self).reserve_b == old(self).reserve_b + amount_b,
            final(self).lp_supply == old(self).lp_supply + lp_minted,
            final(self).token_a_mint == old(self).token_a_mint,
            final(self).token_b_mint == old(self).token_b_mint,
            final(self).fee_basis_points == old(self).fee_basis_points,
    {
        self.reserve_a = self.reserve_a + amount_a;
        self.reserve_b = self.reserve_b + amount_b;
        self.lp_supply = self.lp_supply + lp_minted;
    }

    /// Commits a validated withdrawal: both reserves shrink by the amounts
    /// paid out and the burned claim units leave the supply. A transition
    /// that would drive a balance negative is a caller bug and is excluded
    /// outright.
    pub fn apply_withdrawal(&mut self, amount_a: u64, amount_b: u64, lp_burned: u64)
        requires
            amount_a <= old(self).reserve_a,
            amount_b <= old(self).reserve_b,
            lp_burned <= old(self).lp_supply,
        ensures
            final(self).reserve_a == old(self).reserve_a - amount_a,
            final(self).reserve_b == old(self).reserve_b - amount_b,
            final(self).lp_supply == old(self).lp_supply - lp_burned,
            final(self).token_a_mint == old(self).token_a_mint,
            final(self).token_b_mint == old(self).token_b_mint,
            final(self).fee_basis_points == old(self).fee_basis_points,
    {
        self.reserve_a = self.reserve_a - amount_a;
        self.reserve_b = self.reserve_b - amount_b;
        self.lp_supply = self.lp_supply - lp_burned;
    }

    /// Commits a validated swap: the sold asset's reserve grows by the input
    /// and the bought asset's reserve pays out the output. The claim supply
    /// is untouched.
    pub fn apply_swap(&mut self, input_is_a: bool, amount_in: u64, amount_out: u64)
        requires
            input_is_a ==> old(self).reserve_a + amount_in <= u64::MAX && amount_out <= old(self).reserve_b,
            !input_is_a ==> old(self).reserve_b + amount_in <= u64::MAX && amount_out <= old(self).reserve_a,
        ensures
            input_is_a ==> final(self).reserve_a == old(self).reserve_a + amount_in && final(self).reserve_b == old(self).reserve_b - amount_out,
            !input_is_a ==> final(self).reserve_b == old(self).reserve_b + amount_in && final(self).reserve_a == old(self).reserve_a - amount_out,
            final(self).lp_supply == old(self).lp_supply,
            final(self).token_a_mint == old(self).token_a_mint,
            final(self).token_b_mint == old(self).token_b_mint,
            final(self).fee_basis_points == old(self).fee_basis_points,
    {
        if input_is_a {
            self.reserve_a = self.reserve_a + amount_in;
            self.reserve_b = self.reserve_b - amount_out;
        } else {
            self.reserve_b = self.reserve_b + amount_in;
            self.reserve_a = self.reserve_a - amount_out;
        }
    }
}

} // verus!
