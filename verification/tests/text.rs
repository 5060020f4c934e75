//! Text primitives.

use agent_server::text::{
    contains, decimal, ends_with, eq_ignore_ascii_case, hex_upper, normalize, signed_decimal,
    starts_with, to_lowercase, trim,
};

#[test]
fn trimming() {
    assert_eq!(trim("\t a b\u{3000}\n"), "a b");
    assert_eq!(trim("\u{a0}\u{2003}"), "");
    assert_eq!(trim("\u{200b}x"), "\u{200b}x");
    assert_eq!(trim(""), "");
}

#[test]
fn lower_case() {
    assert_eq!(to_lowercase("WeChat 微信"), "wechat 微信");
    assert_eq!(to_lowercase("ÀÉ"), "àé");
    assert_eq!(to_lowercase("ΑΣ"), "ας");
    assert_eq!(to_lowercase("İ"), "i\u{307}");
    assert_eq!(normalize("  ABC "), "abc");
    assert!(eq_ignore_ascii_case("Editable", "EDITABLE"));
    assert!(!eq_ignore_ascii_case("É", "é"));
}

#[test]
fn parts() {
    assert!(starts_with("message_0.db", "message_"));
    assert!(!starts_with("mess", "message_"));
    assert!(ends_with("a.db", ".db"));
    assert!(!ends_with("db", ".db"));
    assert!(contains("message_fts.db", "fts"));
    assert!(contains("abc", ""));
    assert!(!contains("ab", "abc"));
}

#[test]
fn numbers() {
    assert_eq!(decimal(0), "0");
    assert_eq!(decimal(1_234_567_890), "1234567890");
    assert_eq!(decimal(u128::MAX), u128::MAX.to_string());
    assert_eq!(signed_decimal(-7), "-7");
    assert_eq!(signed_decimal(i64::MIN), i64::MIN.to_string());
    assert_eq!(hex_upper(&[0x00, 0xab, 0x5f]), "00AB5F");
    assert_eq!(hex_upper(&[]), "");
}
