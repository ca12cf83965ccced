use playible::msg::Coin;
use playible::treasury::{compute_price_with_tax, compute_tax, deduct_tax, discount};

#[test]
fn tax_is_the_excess_over_amount_per_one_plus_rate() {
    assert_eq!(compute_tax(1_000_000, 5_000_000_000_000_000, 1_000_000), Some(4_976));
    assert_eq!(compute_price_with_tax(1_000_000, 5_000_000_000_000_000, 1_000_000), Some(4_976));
    assert_eq!(compute_tax(1_000_000, 0, 1_000_000), Some(0));
}

#[test]
fn tax_is_capped() {
    assert_eq!(compute_tax(1_000_000, 5_000_000_000_000_000, 1_000), Some(1_000));
}

#[test]
fn tax_needs_a_representable_rate() {
    assert_eq!(compute_tax(10, u128::MAX, 5), None);
    assert_eq!(discount(10, u128::MAX), None);
}

#[test]
fn deduct_tax_keeps_the_denomination() {
    let c = deduct_tax(Coin { denom: "uusd".to_string(), amount: 1_000_000 }, 5_000_000_000_000_000, 1_000_000);
    assert_eq!(c, Coin { denom: "uusd".to_string(), amount: 995_024 });
    let c = deduct_tax(Coin { denom: "uusd".to_string(), amount: 77 }, u128::MAX, 5);
    assert_eq!(c.amount, 77);
}

#[test]
fn discount_divides_by_one_plus_rate() {
    assert_eq!(discount(1_000, 250_000_000_000_000_000), Some(800));
    assert_eq!(discount(u128::MAX, 0), Some(u128::MAX));
    assert_eq!(discount(3, 1_000_000_000_000_000_000), Some(1));
}
