use anchor_token::math::{checked_mul_div, mul_rem, rounded_mul_defined};
use anchor_token::math::{multiply_ratio, mul_decimal, rounded_checked_mul, Decimal, OverflowError};
use anchor_token::tax::{compute_tax, deduct_tax};
use anchor_token::common::{is_ascending, OrderBy};

#[test]
fn rounded_multiplication() {
    let d = Decimal::from_ratio(5, 3);
    assert_eq!(rounded_checked_mul(d, 100), Ok(167));
    assert_eq!(rounded_checked_mul(d, 1), Ok(2));
    assert_eq!(rounded_checked_mul(Decimal::from_ratio(1, 3), 1), Ok(0));
    assert_eq!(rounded_checked_mul(Decimal::from_ratio(1, 2), 1), Ok(1));
    assert_eq!(rounded_checked_mul(Decimal::zero(), 1), Ok(0));
    assert_eq!(rounded_checked_mul(Decimal::raw(u128::MAX), u128::MAX), Err(OverflowError {}));
    // a product that needs more than 128 bits before division
    let big = Decimal::from_ratio(u128::MAX / 1_000_000_000_000_000_000 / 2, 1);
    assert_eq!(rounded_checked_mul(big, 2), Ok(big.atomics / 1_000_000_000_000_000_000 * 2));
}

#[test]
fn truncating_products() {
    assert_eq!(multiply_ratio(10, 7, 3), 23);
    assert_eq!(multiply_ratio(u128::MAX, 3, 4), u128::MAX / 4 * 3 + 2);
    assert_eq!(mul_decimal(1000, Decimal::from_ratio(1, 3)), 333);
    assert_eq!(Decimal::from_ratio(1, 3).atomics, 333_333_333_333_333_333);
    assert_eq!(Decimal::one().sub(Decimal::from_ratio(1, 4)), Decimal::from_ratio(3, 4));
    assert_eq!(Decimal::from_ratio(1, 4).saturating_sub(Decimal::one()), Decimal::zero());
}

#[test]
fn stability_tax() {
    // rate 0.5%: 1 - 1/1.005 = 0.004975124378109453; on 1,000,000 that is 4975
    let rate = Decimal::from_ratio(5, 1000);
    assert_eq!(compute_tax(1000000, rate, 1000000), 4975);
    assert_eq!(compute_tax(1000000, rate, 100), 100);
    assert_eq!(deduct_tax(1000000, rate, 1000000), 995025);
    assert_eq!(compute_tax(0, rate, 100), 0);
    assert!(is_ascending(OrderBy::Asc));
    assert!(!is_ascending(OrderBy::Desc));
}

#[test]
fn checked_products() {
    assert_eq!(checked_mul_div(10, 7, 3), Some(23));
    assert_eq!(checked_mul_div(u128::MAX, 3, 4), Some(u128::MAX / 4 * 3 + 2));
    assert_eq!(checked_mul_div(u128::MAX, 2, 1), None);
    assert_eq!(mul_rem(10, 7, 3), 1);
    assert_eq!(mul_rem(u128::MAX, u128::MAX, 1_000_000_000_000_000_000), 834_793_049_593_217_025);
    assert!(rounded_mul_defined(Decimal::from_ratio(5, 3), 100));
    assert!(rounded_mul_defined(Decimal::raw(u128::MAX), 1_000_000_000_000_000_000));
    // the truncated product is the largest 128-bit value and rounding up would leave the range
    assert!(!rounded_mul_defined(
        Decimal::raw(340_282_366_920_938_462_782_809_873_589_891_285_890),
        1_000_000_000_000_000_002
    ));
}

#[test]
fn test_overflow() {
    let x = Decimal::raw(u128::MAX);
    match rounded_checked_mul(x, u64::MAX as u128) {
        Err(_) => (),
        _ => panic!("DO NOT ENTER HERE"),
    }
}
