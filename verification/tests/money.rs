use payments_engine::domain::Account;
use payments_engine::dto::AccountResponse;
use payments_engine::money::Money;

#[test]
fn new_keeps_mantissa_and_scale() {
    let m = Money::new(-3141, 3);
    assert_eq!(m.mantissa(), -3141);
    assert_eq!(m.scale(), 3);
}

#[test]
fn zero_and_default_are_zero() {
    assert_eq!(Money::zero().mantissa(), 0);
    assert_eq!(Money::zero().scale(), 0);
    assert_eq!(Money::default(), Money::zero());
}

#[test]
fn construction_is_refused_beyond_a_decimal() {
    let max: i128 = 79_228_162_514_264_337_593_543_950_335;
    assert!(Money::try_from_i128_with_scale(max, 28).is_some());
    assert!(Money::try_from_i128_with_scale(-max, 0).is_some());
    assert!(Money::try_from_i128_with_scale(max + 1, 0).is_none());
    assert!(Money::try_from_i128_with_scale(-max - 1, 0).is_none());
    assert!(Money::try_from_i128_with_scale(1, 29).is_none());
}

#[test]
fn units_are_ten_thousandths() {
    assert_eq!(Money::new(7, 0).units(), 70000);
    assert_eq!(Money::new(7, 1).units(), 7000);
    assert_eq!(Money::new(7, 2).units(), 700);
    assert_eq!(Money::new(-7, 3).units(), -70);
    assert_eq!(Money::new(7, 4).units(), 7);
}

#[test]
fn plus_is_exact_across_scales() {
    let sum = Money::new(15, 1).plus(Money::new(225, 2));
    assert_eq!(sum.units(), 37500);
    assert_eq!(sum, Money::new(375, 2));
    assert_eq!(Money::new(0, 4).plus(Money::new(5, 0)).units(), 50000);
}

#[test]
fn minus_is_exact_across_scales() {
    let difference = Money::new(15, 1).minus(Money::new(225, 2));
    assert_eq!(difference.units(), -7500);
    assert_eq!(difference, Money::new(-75, 2));
}

#[test]
fn le_compares_values() {
    assert!(Money::new(15, 1).le(&Money::new(150, 2)));
    assert!(Money::new(149, 2).le(&Money::new(15, 1)));
    assert!(!Money::new(151, 2).le(&Money::new(15, 1)));
    assert!(Money::new(-1, 4).le(&Money::new(0, 0)));
    assert!(!Money::new(1, 4).le(&Money::new(0, 0)));
}

#[test]
fn equality_is_by_value() {
    assert_eq!(Money::new(150, 2), Money::new(15, 1));
    assert_eq!(Money::new(0, 4), Money::new(0, 0));
    assert_ne!(Money::new(15, 1), Money::new(15, 0));
    assert_ne!(Money::new(1, 0), Money::new(-1, 0));
}

#[test]
fn round_dp_keeps_short_amounts() {
    let m = Money::new(125, 2).round_dp(4);
    assert_eq!(m.mantissa(), 125);
    assert_eq!(m.scale(), 2);
}

#[test]
fn round_dp_rounds_half_to_even() {
    let up = Money::new(123456, 5).round_dp(4);
    assert_eq!((up.mantissa(), up.scale()), (12346, 4));
    let even_down = Money::new(100005, 5).round_dp(4);
    assert_eq!((even_down.mantissa(), even_down.scale()), (10000, 4));
    let even_up = Money::new(100015, 5).round_dp(4);
    assert_eq!((even_up.mantissa(), even_up.scale()), (10002, 4));
}

#[test]
fn row_rounds_each_balance() {
    let account = Account {
        client: 3,
        available: Money::new(123456, 5),
        held: Money::new(1, 1),
        total: Money::new(133456, 5),
        locked: true,
    };
    let row = AccountResponse::from(account);
    assert_eq!(row.client, 3);
    assert!(row.locked);
    assert_eq!((row.available.mantissa(), row.available.scale()), (12346, 4));
    assert_eq!((row.held.mantissa(), row.held.scale()), (1, 1));
    assert_eq!((row.total.mantissa(), row.total.scale()), (13346, 4));
}

#[test]
fn default_account_is_empty_and_client_renames_it() {
    let account = Account::default();
    assert_eq!(account.client, 0);
    assert!(!account.locked);
    assert_eq!(account.available.units(), 0);
    assert_eq!(account.held.units(), 0);
    assert_eq!(account.total.units(), 0);
    let renamed = account.client(42);
    assert_eq!(renamed.client, 42);
    assert_eq!(renamed.total, account.total);
}
