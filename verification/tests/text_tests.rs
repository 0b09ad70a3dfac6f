use oar_ocr_web::images::base64_payload;
use oar_ocr_web::config::configured_token;
use oar_ocr_web::text::{append_decimal, append_zero_padded, parse_u64, starts_with, str_equals};

#[test]
fn zero_padded_decimal() {
    let mut s = String::new();
    append_zero_padded(&mut s, 7, 4);
    assert_eq!(s, "0007");
    let mut s = String::new();
    append_zero_padded(&mut s, 12345, 4);
    assert_eq!(s, "12345");
    let mut s = String::from("x=");
    append_zero_padded(&mut s, 0, 2);
    assert_eq!(s, "x=00");
    let mut s = String::new();
    append_decimal(&mut s, u64::MAX);
    assert_eq!(s, u64::MAX.to_string());
}

#[test]
fn parse_u64_like_std() {
    for text in ["0", "42", "+42", "007", "", "+", "-3", "4x", " 1", "18446744073709551615", "18446744073709551616", "１"] {
        assert_eq!(parse_u64(text), text.parse::<u64>().ok(), "{text:?}");
    }
}

#[test]
fn string_slice_operations() {
    assert_eq!(configured_token(Some("  a b \t\n")).as_deref(), Some("a b"));
    assert_eq!(configured_token(Some("\u{3000}x\u{a0}")).as_deref(), Some("x"));
    assert_eq!(base64_payload("a;base64,b;base64,c"), "b;base64,c");
    assert_eq!(base64_payload("abc"), "abc");
    assert!(starts_with("https://x", "https://"));
    assert!(!starts_with("http:/", "http://"));
    assert!(str_equals("图片", "图片"));
    assert!(!str_equals("图片", "图"));
}
