//! The Terra stability tax on native coin transfers: a share of the amount,
//! capped, taken from what is sent.
use vstd::prelude::*;
use crate::math::{Decimal, DECIMAL_FRACTIONAL, mul_div_floor, multiply_ratio};

verus! {

/// The tax on `amount` at rate `tax_rate` capped at `tax_cap`: the amount
/// times `1 - 1 / (1 + rate)` (each decimal step truncated to 18 digits),
/// at most the cap.
pub open spec fn tax_spec(amount: u128, tax_rate: Decimal, tax_cap: u128) -> int {
    let dd = DECIMAL_FRACTIONAL as int;
    let inverse = (dd * dd) / (dd + tax_rate.atomics);
    let t = mul_div_floor(amount as int, dd - inverse, dd);
    if t <= tax_cap { t } else { tax_cap as int }
}

/// The tax on sending `amount` of a native coin, given the chain's tax rate
/// and the coin's tax cap.
pub fn compute_tax(amount: u128, tax_rate: Decimal, tax_cap: u128) -> (tax: u128)
    requires
        DECIMAL_FRACTIONAL + tax_rate.atomics <= u128::MAX,
    ensures
        tax == tax_spec(amount, tax_rate, tax_cap),
        tax <= amount,
        tax <= tax_cap,
{
    let dd = DECIMAL_FRACTIONAL;
    proof {
        assert(1_000_000_000_000_000_000_000_000_000_000_000_000u128 == DECIMAL_FRACTIONAL * DECIMAL_FRACTIONAL);
        vstd::arithmetic::div_mod::lemma_div_is_ordered_by_denominator(
            (DECIMAL_FRACTIONAL * DECIMAL_FRACTIONAL) as int,
            DECIMAL_FRACTIONAL as int,
            (DECIMAL_FRACTIONAL + tax_rate.atomics) as int,
        );
        vstd::arithmetic::div_mod::lemma_div_multiples_vanish(DECIMAL_FRACTIONAL as int, DECIMAL_FRACTIONAL as int);
    }
    let inverse = 1_000_000_000_000_000_000_000_000_000_000_000_000u128 / (dd + tax_rate.atomics);
    let factor = dd - inverse;
    proof {
        assert(amount * factor <= amount * dd) by (nonlinear_arith)
            requires factor <= dd;
        vstd::arithmetic::div_mod::lemma_div_is_ordered((amount * factor) as int, (amount * dd) as int, dd as int);
        vstd::arithmetic::div_mod::lemma_div_multiples_vanish(amount as int, dd as int);
        assert(amount * dd == dd * amount) by (nonlinear_arith);
    }
    let t = if amount == 0 || factor == 0 {
        proof {
            assert(amount * factor == 0) by (nonlinear_arith)
                requires amount == 0 || factor == 0;
        }
        0
    } else {
        multiply_ratio(amount, factor, dd)
    };
    if t <= tax_cap { t } else { tax_cap }
}

/// What is left of `amount` once the tax is taken.
pub fn deduct_tax(amount: u128, tax_rate: Decimal, tax_cap: u128) -> (net: u128)
    requires
        DECIMAL_FRACTIONAL + tax_rate.atomics <= u128::MAX,
    ensures
        net == amount - tax_spec(amount, tax_rate, tax_cap),
{
    let tax = compute_tax(amount, tax_rate, tax_cap);
    amount - tax
}

/// The tax and what is left add up to the amount, and the tax never exceeds
/// the cap.
pub proof fn lemma_tax_split(amount: u128, tax_rate: Decimal, tax_cap: u128)
    requires
        0 <= tax_spec(amount, tax_rate, tax_cap) <= amount,
    ensures
        tax_spec(amount, tax_rate, tax_cap) + (amount - tax_spec(amount, tax_rate, tax_cap)) == amount,
        tax_spec(amount, tax_rate, tax_cap) <= tax_cap,
{
}

} // verus!
