use brook_controller_relay::text::{eq_ignore_ascii_case, push_decimal, push_hex_padded, str_eq};

#[test]
fn ascii_case_comparison() {
    assert!(eq_ignore_ascii_case("Escape", "eScApE"));
    assert!(eq_ignore_ascii_case("", ""));
    assert!(!eq_ignore_ascii_case("Tab", "Tabs"));
    assert!(!eq_ignore_ascii_case("é", "É"));
    assert!(eq_ignore_ascii_case("é1", "é1"));
    assert!(!eq_ignore_ascii_case("[", "{"));
}

#[test]
fn string_equality() {
    assert!(str_eq("SF6", "SF6"));
    assert!(!str_eq("SF6", "sf6"));
}

#[test]
fn decimal_and_hex_formatting() {
    let mut s = String::from("btn");
    push_decimal(&mut s, 15);
    assert_eq!(s, "btn15");
    let mut s = String::new();
    push_decimal(&mut s, 0);
    assert_eq!(s, "0");
    let mut s = String::new();
    push_hex_padded(&mut s, 0xf0d, false, 4);
    assert_eq!(s, "0f0d");
    let mut s = String::new();
    push_hex_padded(&mut s, 0xABCDE, true, 2);
    assert_eq!(s, "ABCDE");
    let mut s = String::new();
    push_hex_padded(&mut s, 0, true, 0);
    assert_eq!(s, "0");
}
