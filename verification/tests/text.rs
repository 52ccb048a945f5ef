use signer::text::{decimal, hex, jstr, str_eq};

#[test]
fn hex_is_lowercase_two_digits_per_byte() {
    assert_eq!(hex(&[0x00, 0x0f, 0xa5, 0xff]), "000fa5ff");
    assert_eq!(hex(&[]), "");
}

#[test]
fn decimal_has_no_leading_zeros() {
    assert_eq!(decimal(0), "0");
    assert_eq!(decimal(7), "7");
    assert_eq!(decimal(64), "64");
    assert_eq!(decimal(1000), "1000");
    assert_eq!(decimal(usize::MAX), usize::MAX.to_string());
}

#[test]
fn jstr_quotes_plain_text() {
    assert_eq!(jstr("p256"), "\"p256\"");
    assert_eq!(jstr(""), "\"\"");
}

#[test]
fn jstr_escapes_quote_and_backslash() {
    assert_eq!(jstr("a\"b\\c"), "\"a\\\"b\\\\c\"");
}

#[test]
fn jstr_escapes_control_characters() {
    assert_eq!(jstr("x\ny"), "\"x\\u000ay\"");
    assert_eq!(jstr("\u{1f}\u{0}"), "\"\\u001f\\u0000\"");
    assert_eq!(jstr("\u{7f}é"), "\"\u{7f}é\"");
}

#[test]
fn str_eq_compares_characters() {
    assert!(str_eq("sign", "sign"));
    assert!(!str_eq("sign", "signs"));
    assert!(!str_eq("pubkey", "pubkez"));
    assert!(str_eq("", ""));
}
