use chronon::text::{blank, format_bool, format_decimal, format_hex_padded, format_signed, str_equal};

#[test]
fn decimal_formatting() {
    assert_eq!(format_decimal(0), "0");
    assert_eq!(format_decimal(305), "305");
    assert_eq!(format_decimal(u128::MAX), u128::MAX.to_string());
}

#[test]
fn hex_formatting() {
    assert_eq!(format_hex_padded(0xAB, 4), "00AB");
    assert_eq!(format_hex_padded(0x12345, 4), "12345");
    assert_eq!(format_hex_padded(0, 8), "00000000");
    assert_eq!(format_hex_padded(0xDEADBEEF, 8), format!("{:08X}", 0xDEADBEEFu32));
}

#[test]
fn signed_and_bool_formatting() {
    assert_eq!(format_signed(-12), "-12");
    assert_eq!(format_signed(i64::MIN), i64::MIN.to_string());
    assert_eq!(format_signed(7), "7");
    assert_eq!(format_bool(true), "true");
    assert_eq!(format_bool(false), "false");
}

#[test]
fn blank_and_equal() {
    assert!(blank(""));
    assert!(blank(" \t\n\u{00A0}\u{2003}"));
    assert!(!blank(" a "));
    assert!(str_equal("ttf", "ttf"));
    assert!(!str_equal("ttf", "TTF"));
    assert!(!str_equal("ttf", "ttf2"));
}
