//! The platform-fee arithmetic: the mathematical fee function, its verified
//! executable computation, and the conservation law of the fee split.

use vstd::prelude::*;

verus! {

/// The platform fee on `amount` at `fee_bps` basis points:
/// `floor(amount * fee_bps / 10000)`.
pub open spec fn spec_fee(amount: u64, fee_bps: u16) -> int {
    (amount as int * fee_bps as int) / 10000
}

/// A fee rate of at most 10000 basis points never takes more than the whole
/// amount, and never less than nothing.
pub proof fn lemma_fee_bounds(amount: u64, fee_bps: u16)
    requires
        fee_bps <= 10000,
    ensures
        0 <= spec_fee(amount, fee_bps) <= amount,
{
    assert(amount as int * fee_bps as int <= amount as int * 10000) by (nonlinear_arith)
        requires
            fee_bps <= 10000,
            0 <= amount as int,
    ;
    assert(0 <= amount as int * fee_bps as int) by (nonlinear_arith)
        requires
            0 <= amount as int,
            0 <= fee_bps as int,
    ;
    assert((amount as int * 10000) / 10000 == amount as int);
    vstd::arithmetic::div_mod::lemma_div_is_ordered(
        amount as int * fee_bps as int,
        amount as int * 10000,
        10000,
    );
}

/// Fee conservation: splitting an amount into its fee and its executor
/// payout loses nothing and double-counts nothing, for every positive amount
/// and every admissible fee rate.
pub proof fn lemma_fee_conservation(amount: u64, fee_bps: u16)
    requires
        1 <= amount,
        fee_bps <= 10000,
    ensures
        0 <= spec_fee(amount, fee_bps) <= amount,
        spec_fee(amount, fee_bps) + (amount - spec_fee(amount, fee_bps)) == amount,
        fee_bps == 0 ==> spec_fee(amount, fee_bps) == 0,
        fee_bps == 10000 ==> spec_fee(amount, fee_bps) == amount,
{
    lemma_fee_bounds(amount, fee_bps);
    assert(fee_bps == 0 ==> amount as int * fee_bps as int == 0) by (nonlinear_arith);
    assert(fee_bps == 10000 ==> amount as int * fee_bps as int == amount as int * 10000);
    assert((amount as int * 10000) / 10000 == amount as int);
}

/// Computes `floor(amount * fee_bps / 10000)`, widening to 128 bits so the
/// product cannot overflow before the division.
pub fn compute_fee(amount: u64, fee_bps: u16) -> (fee: u64)
    requires
        fee_bps <= 10000,
    ensures
        fee == spec_fee(amount, fee_bps),
        fee <= amount,
{
    proof {
        lemma_fee_bounds(amount, fee_bps);
        assert(amount as int * fee_bps as int <= u64::MAX as int * 10000) by (nonlinear_arith)
            requires
                0 <= amount as int <= u64::MAX as int,
                0 <= fee_bps as int <= 10000,
        ;
    }
    let product: u128 = (amount as u128) * (fee_bps as u128);
    let wide: u128 = product / 10000;
    wide as u64
}

} // verus!
