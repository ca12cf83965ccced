use vstd::prelude::*;
use crate::msg::Coin;

verus! {

/// One whole unit of a decimal with 18 fractional digits, in atomic units.
pub const DECIMAL_FRACTION: u128 = 1_000_000_000_000_000_000;

/// Relies on cosmwasm_std::Uint128::multiply_ratio: `value * numerator / denominator`,
/// rounded down, with no overflow in the intermediate product. It panics where the
/// denominator is zero or the result does not fit in 128 bits.
#[verifier::external_body]
fn multiply_ratio(value: u128, numerator: u128, denominator: u128) -> (r: u128)
    requires
        denominator > 0,
        value as int * numerator as int / denominator as int <= u128::MAX,
    ensures
        r as int == value as int * numerator as int / denominator as int,
{
    cosmwasm_std::Uint128::new(value).multiply_ratio(numerator, denominator).u128()
}

/// `amount / (1 + rate)`, rounded down, where `rate` is a decimal in atomic units.
pub open spec fn discounted(amount: u128, rate: u128) -> int {
    amount as int * DECIMAL_FRACTION as int / (rate as int + DECIMAL_FRACTION as int)
}

/// The tax on `amount` at rate `tax_rate` (a decimal in atomic units): the part of
/// `amount` above `amount / (1 + tax_rate)`, but no more than `tax_cap`.
pub open spec fn tax_of(amount: u128, tax_rate: u128, tax_cap: u128) -> int {
    let t = amount as int - discounted(amount, tax_rate);
    if t <= tax_cap as int { t } else { tax_cap as int }
}

proof fn lemma_discounted_le(amount: u128, rate: u128)
    ensures
        0 <= discounted(amount, rate) <= amount,
{
    let a = amount as int;
    let d = DECIMAL_FRACTION as int;
    let q = rate as int + d;
    assert(a * d <= a * q) by (nonlinear_arith)
        requires
            a >= 0,
            q >= d,
            d > 0,
    ;
    assert(a * d / q <= a * q / q) by (nonlinear_arith)
        requires
            a * d <= a * q,
            q > 0,
    ;
    assert(a * q / q == a) by (nonlinear_arith)
        requires
            q > 0,
    ;
    assert(a * d / q >= 0) by (nonlinear_arith)
        requires
            a >= 0,
            d > 0,
            q > 0,
    ;
}

/// `amount / (1 + rate)`, rounded down; `None` where `1 + rate` does not fit.
pub fn discount(amount: u128, rate: u128) -> (r: Option<u128>)
    ensures
        r.is_some() == (rate as int + DECIMAL_FRACTION as int <= u128::MAX),
        r.is_some() ==> r.unwrap() as int == discounted(amount, rate),
{
    if rate > u128::MAX - DECIMAL_FRACTION {
        return None;
    }
    proof {
        lemma_discounted_le(amount, rate);
    }
    Some(multiply_ratio(amount, DECIMAL_FRACTION, rate + DECIMAL_FRACTION))
}

/// The tax on `amount`: what exceeds `amount / (1 + tax_rate)`, capped at
/// `tax_cap`. `None` where `1 + tax_rate` does not fit.
pub fn compute_tax(amount: u128, tax_rate: u128, tax_cap: u128) -> (r: Option<u128>)
    ensures
        r.is_some() == (tax_rate as int + DECIMAL_FRACTION as int <= u128::MAX),
        r.is_some() ==> r.unwrap() as int == tax_of(amount, tax_rate, tax_cap),
{
    match discount(amount, tax_rate) {
        None => None,
        Some(net) => {
            proof {
                lemma_discounted_le(amount, tax_rate);
            }
            let t = amount - net;
            if t <= tax_cap {
                Some(t)
            } else {
                Some(tax_cap)
            }
        },
    }
}

/// The same computation as `compute_tax`, used for pricing.
pub fn compute_price_with_tax(amount: u128, tax_rate: u128, tax_cap: u128) -> (r: Option<u128>)
    ensures
        r == compute_tax_spec(amount, tax_rate, tax_cap),
{
    compute_tax(amount, tax_rate, tax_cap)
}

/// What `compute_tax` returns.
pub open spec fn compute_tax_spec(amount: u128, tax_rate: u128, tax_cap: u128) -> Option<u128> {
    if tax_rate as int + DECIMAL_FRACTION as int <= u128::MAX {
        Some(tax_of(amount, tax_rate, tax_cap) as u128)
    } else {
        None
    }
}

/// The coin left after tax. Where the tax cannot be computed, none is taken.
pub fn deduct_tax(coin: Coin, tax_rate: u128, tax_cap: u128) -> (r: Coin)
    ensures
        r.denom == coin.denom,
        tax_rate as int + DECIMAL_FRACTION as int <= u128::MAX ==> r.amount as int == coin.amount as int - tax_of(
            coin.amount,
            tax_rate,
            tax_cap,
        ),
        tax_rate as int + DECIMAL_FRACTION as int > u128::MAX ==> r.amount == coin.amount,
{
    proof {
        lemma_discounted_le(coin.amount, tax_rate);
    }
    let tax = match compute_tax(coin.amount, tax_rate, tax_cap) {
        Some(t) => t,
        None => 0,
    };
    Coin { denom: coin.denom, amount: coin.amount - tax }
}

} // verus!
