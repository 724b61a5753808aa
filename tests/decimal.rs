use osc_address::{parse_i32, parse_u32};
use osc_address::decimal::{push_i32, push_u32};

#[test]
fn parse_unsigned() {
    assert_eq!(parse_u32("42"), Some(42));
    assert_eq!(parse_u32("+42"), Some(42));
    assert_eq!(parse_u32("007"), Some(7));
    assert_eq!(parse_u32("4294967295"), Some(u32::MAX));
    assert_eq!(parse_u32("4294967296"), None);
    assert_eq!(parse_u32("-0"), None);
    assert_eq!(parse_u32("+"), None);
    assert_eq!(parse_u32(""), None);
    assert_eq!(parse_u32("4a"), None);
}

#[test]
fn parse_signed() {
    assert_eq!(parse_i32("-2147483648"), Some(i32::MIN));
    assert_eq!(parse_i32("2147483647"), Some(i32::MAX));
    assert_eq!(parse_i32("2147483648"), None);
    assert_eq!(parse_i32("-2147483649"), None);
    assert_eq!(parse_i32("+5"), Some(5));
    assert_eq!(parse_i32("-"), None);
    assert_eq!(parse_i32("-+5"), None);
}

#[test]
fn render_numbers() {
    let mut s = String::from("/");
    push_u32(&mut s, 0);
    push_u32(&mut s, 4294967295);
    assert_eq!(s, "/04294967295");
    let mut t = String::new();
    push_i32(&mut t, i32::MIN);
    assert_eq!(t, "-2147483648");
    let mut u = String::new();
    push_i32(&mut u, 120);
    assert_eq!(u, "120");
}
