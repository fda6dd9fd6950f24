//! The operating fee: a share of each deposit, in hundredths of a percent.

use vstd::prelude::*;
use vstd::arithmetic::div_mod::lemma_hoist_over_denominator;

verus! {

/// The lowest fee rate an admin may set: 1.00%.
pub const MIN_FEE_PERCENTAGE: u32 = 100;

/// The highest fee rate an admin may set: 5.00%.
pub const MAX_FEE_PERCENTAGE: u32 = 500;

/// The rate a fresh ledger starts with: 2.00%.
pub const DEFAULT_FEE_PERCENTAGE: u32 = 200;

/// One whole, in the unit the fee rate is counted in.
pub const FEE_DENOMINATOR: u32 = 10_000;

/// Whether an admin may set this fee rate.
pub open spec fn fee_percentage_allowed(fee_percentage: u32) -> bool {
    MIN_FEE_PERCENTAGE <= fee_percentage <= MAX_FEE_PERCENTAGE
}

/// The fee on a deposit: `amount × fee_percentage / 10000`, rounded down.
pub open spec fn fee_of(amount: int, fee_percentage: int) -> int {
    (amount * fee_percentage) / 10_000
}

/// A fee at a rate of at most one whole lies between nothing and the deposit.
pub proof fn lemma_fee_bounds(amount: int, fee_percentage: int)
    requires
        0 <= amount,
        0 <= fee_percentage <= 10_000,
    ensures
        0 <= fee_of(amount, fee_percentage) <= amount,
{
    assert(0 <= amount * fee_percentage <= amount * 10_000) by (nonlinear_arith)
        requires
            0 <= amount,
            0 <= fee_percentage <= 10_000,
    ;
    assert((amount * 10_000) / 10_000 == amount) by (nonlinear_arith);
    assert(fee_of(amount, fee_percentage) <= amount) by (nonlinear_arith)
        requires
            amount * fee_percentage <= amount * 10_000,
            (amount * 10_000) / 10_000 == amount,
            fee_of(amount, fee_percentage) == (amount * fee_percentage) / 10_000,
    ;
    assert(0 <= fee_of(amount, fee_percentage)) by (nonlinear_arith)
        requires
            0 <= amount * fee_percentage,
            fee_of(amount, fee_percentage) == (amount * fee_percentage) / 10_000,
    ;
}

/// Splitting the deposit into whole ten-thousands and a rest gives the same
/// fee as multiplying first.
pub proof fn lemma_fee_by_parts(amount: int, fee_percentage: int)
    requires
        0 <= amount,
        0 <= fee_percentage,
    ensures
        fee_of(amount, fee_percentage) == (amount / 10_000) * fee_percentage + ((amount
            % 10_000) * fee_percentage) / 10_000,
{
    let q = amount / 10_000;
    let r = amount % 10_000;
    assert(amount == q * 10_000 + r) by (nonlinear_arith)
        requires
            q == amount / 10_000,
            r == amount % 10_000,
    ;
    assert(amount * fee_percentage == r * fee_percentage + (q * fee_percentage) * 10_000)
        by (nonlinear_arith)
        requires
            amount == q * 10_000 + r,
    ;
    lemma_hoist_over_denominator(r * fee_percentage, q * fee_percentage, 10_000);
}

} // verus!
