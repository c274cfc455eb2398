use rinha_backend::amount::{
    amount_from_cents, amount_from_signed_cents, amount_is_positive, amount_to_cents,
    amount_to_stored_cents, Amount,
};

fn amt(mantissa: i128, scale: u32) -> Amount {
    Amount { mantissa, scale }
}

#[test]
fn cents_of_a_two_digit_amount() {
    assert_eq!(amount_to_cents(amt(1990, 2)), 1990);
    assert_eq!(amount_to_cents(amt(19, 0)), 1900);
    assert_eq!(amount_to_cents(amt(199, 1)), 1990);
}

#[test]
fn cents_are_truncated() {
    assert_eq!(amount_to_cents(amt(19999, 3)), 1999);
    assert_eq!(amount_to_cents(amt(1, 3)), 0);
}

#[test]
fn negative_amount_gives_zero_cents() {
    assert_eq!(amount_to_cents(amt(-500, 2)), 0);
}

#[test]
fn cents_wrap_at_sixteen_bits() {
    // 1000.00 is 100000 cents, which is 34464 modulo 65536
    assert_eq!(amount_to_cents(amt(100000, 2)), 34464);
}

#[test]
fn cents_beyond_u64_give_zero() {
    // 2^64 units: times 100 does not fit in a u64
    assert_eq!(amount_to_cents(amt(18446744073709551616, 0)), 0);
    // a huge mantissa with many fractional digits is multiplied exactly
    assert_eq!(amount_to_cents(amt(79228162514264337593543950335, 28)), 792);
}

#[test]
fn stored_cents() {
    assert_eq!(amount_to_stored_cents(amt(1990, 2)), Some(1990));
    assert_eq!(amount_to_stored_cents(amt(-1999, 3)), Some(-199));
    assert_eq!(amount_to_stored_cents(amt(79228162514264337593543950335, 0 + 2)), None);
}

#[test]
fn amounts_from_cents() {
    assert_eq!(amount_from_cents(1990), amt(1990, 2));
    assert_eq!(amount_from_cents(u64::MAX), amt(-1, 2));
    assert_eq!(amount_from_signed_cents(-7), amt(-7, 2));
}

#[test]
fn positivity() {
    assert!(amount_is_positive(amt(1, 28)));
    assert!(!amount_is_positive(amt(0, 2)));
    assert!(!amount_is_positive(amt(-1, 0)));
}
