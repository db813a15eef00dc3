use asset_ledger::decimal::{Amount, MAX_MANTISSA, MAX_SCALE, MONEY_SCALE};
use asset_ledger::error::{Error, Invalid};
use asset_ledger::model::action_type::Change;

#[test]
fn an_amount_keeps_mantissa_and_scale() {
    let amount = Amount::new(-12_345, 3).unwrap();
    assert_eq!(amount.mantissa(), -12_345);
    assert_eq!(amount.scale(), 3);
}

#[test]
fn an_amount_beyond_ninety_six_bits_or_twenty_eight_digits_is_refused() {
    assert_eq!(MAX_MANTISSA, 79_228_162_514_264_337_593_543_950_335);
    assert_eq!(MAX_SCALE, 28);
    assert_eq!(MONEY_SCALE, 6);
    assert!(Amount::new(MAX_MANTISSA, 28).is_some());
    assert!(Amount::new(-MAX_MANTISSA, 0).is_some());
    assert!(Amount::new(MAX_MANTISSA + 1, 0).is_none());
    assert!(Amount::new(-MAX_MANTISSA - 1, 0).is_none());
    assert!(Amount::new(1, 29).is_none());
    assert!(Amount::new(i128::MIN, 0).is_none());
}

#[test]
fn the_magnitude_is_counted_in_millionths() {
    assert_eq!(Amount::new(100_000_000, 6).unwrap().magnitude(), 100_000_000);
    assert_eq!(Amount::new(100, 0).unwrap().magnitude(), 100_000_000);
    assert_eq!(Amount::new(15, 1).unwrap().magnitude(), 1_500_000);
    assert_eq!(Amount::new(1, 6).unwrap().magnitude(), 1);
    assert_eq!(Amount::new(0, 0).unwrap().magnitude(), 0);
    assert_eq!(Amount::new(0, 20).unwrap().magnitude(), 0);
}

#[test]
fn the_magnitude_drops_the_sign() {
    assert_eq!(Amount::new(-100, 0).unwrap().magnitude(), 100_000_000);
    assert_eq!(Amount::new(-1, 6).unwrap().magnitude(), 1);
    assert_eq!(Amount::new(-19_999_999, 7).unwrap().magnitude(), 1_999_999);
}

#[test]
fn the_magnitude_cuts_after_six_digits_without_rounding() {
    assert_eq!(Amount::new(19_999_999, 7).unwrap().magnitude(), 1_999_999);
    assert_eq!(Amount::new(9, 7).unwrap().magnitude(), 0);
    assert_eq!(Amount::new(1_234_567_891_234, 12).unwrap().magnitude(), 1_234_567);
    assert_eq!(Amount::new(MAX_MANTISSA, 28).unwrap().magnitude(), 7_922_816);
}

#[test]
fn the_largest_amount_has_the_largest_magnitude() {
    assert_eq!(Amount::new(MAX_MANTISSA, 0).unwrap().magnitude(), MAX_MANTISSA * 1_000_000);
    assert_eq!(Amount::new(MAX_MANTISSA, 6).unwrap().magnitude(), MAX_MANTISSA);
    assert_eq!(Amount::new(MAX_MANTISSA, 3).unwrap().magnitude(), MAX_MANTISSA * 1_000);
}

#[test]
fn a_rule_signs_the_magnitude() {
    let amount = Amount::new(-2_500_000_9, 7).unwrap();
    assert_eq!(Change::Inc.calculate_change(amount), 2_500_000);
    assert_eq!(Change::Dec.calculate_change(amount), -2_500_000);
    assert_eq!(Change::Unchanged.calculate_change(amount), 0);
}

#[test]
fn each_category_has_its_status_code() {
    assert_eq!(Error::Validation(Invalid::UserId).status_code(), 400);
    assert_eq!(Error::InsufficientFunds.status_code(), 402);
    assert_eq!(Error::Forbidden.status_code(), 403);
    assert_eq!(Error::NotFound.status_code(), 404);
    assert_eq!(Error::Conflict.status_code(), 409);
    assert_eq!(Error::OutOfRange.status_code(), 500);
}

#[test]
fn millionths_go_into_an_amount_and_come_back() {
    let amount = Amount::from_micros(-1_500_000).unwrap();
    assert_eq!((amount.mantissa(), amount.scale()), (-1_500_000, 6));
    assert_eq!(amount.to_micros(), Some(-1_500_000));
    assert!(Amount::from_micros(MAX_MANTISSA).is_some());
    assert!(Amount::from_micros(MAX_MANTISSA + 1).is_none());
    assert!(Amount::from_micros(-MAX_MANTISSA - 1).is_none());
}

#[test]
fn an_amount_with_up_to_six_digits_is_exact_in_millionths() {
    assert_eq!(Amount::new(-15, 1).unwrap().to_micros(), Some(-1_500_000));
    assert_eq!(Amount::new(7, 0).unwrap().to_micros(), Some(7_000_000));
    assert_eq!(Amount::new(7, 6).unwrap().to_micros(), Some(7));
    assert_eq!(Amount::new(MAX_MANTISSA, 0).unwrap().to_micros(), Some(MAX_MANTISSA * 1_000_000));
    assert_eq!(Amount::new(70, 7).unwrap().to_micros(), None);
    assert_eq!(Amount::new(0, 28).unwrap().to_micros(), None);
}
