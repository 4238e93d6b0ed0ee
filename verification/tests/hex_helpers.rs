use srp_integer::hex::{is_hex_byte, is_hex_string, pad_with_zeros};

#[test]
fn hex_bytes() {
    for b in 0..=255u8 {
        assert_eq!(is_hex_byte(b), (b as char).is_ascii_hexdigit());
    }
}

#[test]
fn hex_strings() {
    assert!(is_hex_string(""));
    assert!(is_hex_string("0123456789abcdefABCDEF"));
    assert!(!is_hex_string("g"));
    assert!(!is_hex_string("12 34"));
    assert!(!is_hex_string("-1"));
    assert!(!is_hex_string("１２"));
    assert!(!is_hex_string("é"));
}

#[test]
fn padding() {
    assert_eq!(pad_with_zeros("ab", 5), "000ab");
    assert_eq!(pad_with_zeros("ab", 2), "ab");
    assert_eq!(pad_with_zeros("abc", 2), "abc");
    assert_eq!(pad_with_zeros("", 3), "000");
    assert_eq!(pad_with_zeros("", 0), "");
    assert_eq!(pad_with_zeros("é", 3), "00é");
}
