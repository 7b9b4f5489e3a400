use regmap::text::{
    chars_of, parse_hex_u32, parse_i32, parse_u32, push_decimal, push_hex,
    same_text, to_lower_text,
};

#[test]
fn decimal_numbers_are_read() {
    assert_eq!(parse_u32("0"), Some(0));
    assert_eq!(parse_u32("32"), Some(32));
    assert_eq!(parse_u32("007"), Some(7));
    assert_eq!(parse_u32("4294967295"), Some(u32::MAX));
    assert_eq!(parse_u32("4294967296"), None);
    assert_eq!(parse_u32("99999999999999999999999"), None);
    assert_eq!(parse_u32(""), None);
    assert_eq!(parse_u32("+5"), None);
    assert_eq!(parse_u32("-5"), None);
    assert_eq!(parse_u32(" 5"), None);
    assert_eq!(parse_u32("5 "), None);
    assert_eq!(parse_u32("1a"), None);
    assert_eq!(parse_u32("٣"), None);
}

#[test]
fn hexadecimal_numbers_are_read() {
    assert_eq!(parse_hex_u32("0"), Some(0));
    assert_eq!(parse_hex_u32("10C"), Some(0x10c));
    assert_eq!(parse_hex_u32("dead"), Some(0xdead));
    assert_eq!(parse_hex_u32("DeadBeef"), Some(0xdead_beef));
    assert_eq!(parse_hex_u32("FFFFFFFF"), Some(u32::MAX));
    assert_eq!(parse_hex_u32("100000000"), None);
    assert_eq!(parse_hex_u32(""), None);
    assert_eq!(parse_hex_u32("0x10"), None);
    assert_eq!(parse_hex_u32("g"), None);
}

#[test]
fn signed_numbers_are_read() {
    assert_eq!(parse_i32("0"), Some(0));
    assert_eq!(parse_i32("31"), Some(31));
    assert_eq!(parse_i32("+31"), Some(31));
    assert_eq!(parse_i32("-31"), Some(-31));
    assert_eq!(parse_i32("2147483647"), Some(i32::MAX));
    assert_eq!(parse_i32("2147483648"), None);
    assert_eq!(parse_i32("-2147483648"), Some(i32::MIN));
    assert_eq!(parse_i32("-2147483649"), None);
    assert_eq!(parse_i32(""), None);
    assert_eq!(parse_i32("+"), None);
    assert_eq!(parse_i32("-"), None);
    assert_eq!(parse_i32("--1"), None);
    assert_eq!(parse_i32("+-1"), None);
    assert_eq!(parse_i32("1.0"), None);
    assert_eq!(parse_i32(" 1"), None);
}

#[test]
fn numbers_are_written() {
    let mut s = String::from("n=");
    push_decimal(&mut s, 0);
    assert_eq!(s, "n=0");
    let mut s = String::new();
    push_decimal(&mut s, 1234567890);
    assert_eq!(s, "1234567890");
    let mut s = String::new();
    push_decimal(&mut s, u64::MAX);
    assert_eq!(s, "18446744073709551615");
    let mut s = String::from("0x");
    push_hex(&mut s, 0x10c);
    assert_eq!(s, "0x10C");
    let mut s = String::new();
    push_hex(&mut s, 0);
    assert_eq!(s, "0");
    let mut s = String::new();
    push_hex(&mut s, 0xdead_beef);
    assert_eq!(s, "DEADBEEF");
}

#[test]
fn written_numbers_read_back() {
    for n in [0u32, 1, 9, 10, 15, 16, 255, 256, 65535, 1_000_000, u32::MAX] {
        let mut d = String::new();
        push_decimal(&mut d, n as u64);
        assert_eq!(parse_u32(&d), Some(n));
        let mut h = String::new();
        push_hex(&mut h, n as u64);
        assert_eq!(parse_hex_u32(&h), Some(n));
    }
}

#[test]
fn texts_are_compared_and_folded() {
    assert!(same_text("", ""));
    assert!(same_text("ADDR", "ADDR"));
    assert!(!same_text("ADDR", "addr"));
    assert!(!same_text("ADDR", "ADDR "));
    assert_eq!(to_lower_text("W1SRC"), "w1src");
    assert_eq!(to_lower_text("Rw-É"), "rw-É");
    assert_eq!(chars_of("héllo"), vec!['h', 'é', 'l', 'l', 'o']);
}
