use rusty_tree::text::push_decimal;
use rusty_tree::text::push_signed_decimal;
use rusty_tree::text::same_text;

#[test]
fn decimal_digits() {
    let mut text = String::from("n = ");
    push_decimal(&mut text, 0);
    assert_eq!(text, "n = 0");
    push_decimal(&mut text, 1234567890);
    assert_eq!(text, "n = 01234567890");
    let mut text = String::new();
    push_decimal(&mut text, u128::MAX);
    assert_eq!(text, "340282366920938463463374607431768211455");
}

#[test]
fn signed_decimal_digits() {
    let mut text = String::new();
    push_signed_decimal(&mut text, -7);
    assert_eq!(text, "-7");
    push_signed_decimal(&mut text, i64::MIN);
    assert_eq!(text, "-7-9223372036854775808");
    push_signed_decimal(&mut text, i64::MAX);
    assert_eq!(text, "-7-92233720368547758089223372036854775807");
}

#[test]
fn texts_compare_by_their_characters() {
    assert!(same_text("", ""));
    assert!(same_text("black", "black"));
    assert!(!same_text("black", "blac"));
    assert!(!same_text("black", "blank"));
    assert!(same_text("grün", "grün"));
    assert!(!same_text("grün", "grun"));
}
