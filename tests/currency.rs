use lottery_logic::{format_euro_cents, Amount, Currency, CurrencyEuroExt, Euro};

#[test]
fn display_splits_euros_and_cents() {
    assert_eq!(Amount::new(12345).to_display_string(), "123.45€");
    assert_eq!(Amount::new(5).to_display_string(), "0.05€");
    assert_eq!(Amount::new(0).to_display_string(), "0.00€");
    assert_eq!(Amount::from_euros(4_000_000).to_display_string(), "4000000.00€");
}

#[test]
fn display_of_negative_amounts_keeps_cents_unsigned() {
    assert_eq!(Amount::new(-12345).to_display_string(), "-123.45€");
    assert_eq!(Amount::new(-50).to_display_string(), "0.50€");
    assert_eq!(Amount::new(-100).to_display_string(), "-1.00€");
}

#[test]
fn display_of_extreme_amounts() {
    assert_eq!(format_euro_cents(i64::MAX), "92233720368547758.07€");
    assert_eq!(format_euro_cents(i64::MIN), "-92233720368547758.08€");
    assert_eq!(Euro::format_currency(199), "1.99€");
}

#[test]
fn euro_constructors() {
    assert_eq!(Amount::from_euros(200).value, 20_000);
    assert_eq!(Amount::from_euros(-3).value, -300);
    assert_eq!(Amount::from_euros_and_cents(3, 7).value, 307);
    assert_eq!(Amount::from_euros_and_cents(0, 7).value, 7);
    assert_eq!(Amount::from_euros_and_cents(-3, 7).value, -307);
}

#[test]
fn arithmetic_on_minor_units() {
    let a = Amount::new(700);
    let b = Amount::new(200);
    assert_eq!((a + b).value, 900);
    assert_eq!((a - b).value, 500);
    assert_eq!((b - a).value, -500);
    assert_eq!((a * b).value, 140_000);
    assert_eq!((a / b).value, 3);
    assert_eq!((Amount::new(-700) / b).value, -3);
    assert_eq!(Amount::default().value, 0);
    assert!(a == Amount::new(700));
    assert!(a != b);
}

#[test]
fn amounts_are_ordered_by_value() {
    assert!(Amount::new(-1) < Amount::new(0));
    assert!(Amount::from_euros(2) > Amount::new(199));
    assert!(Amount::new(5) <= Amount::new(5));
}
