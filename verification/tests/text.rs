//! Numerals, prefixes and messages.

use oxide_lower::error::invalid_key_message;
use oxide_lower::text::{decimal_text, has_prefix};

#[test]
fn numerals() {
    assert_eq!(decimal_text(0), "0");
    assert_eq!(decimal_text(9), "9");
    assert_eq!(decimal_text(10), "10");
    assert_eq!(decimal_text(1234567890), "1234567890");
    assert_eq!(decimal_text(u64::MAX), "18446744073709551615");
}

#[test]
fn prefixes() {
    assert!(has_prefix("abc", ""));
    assert!(has_prefix("abc", "ab"));
    assert!(has_prefix("abc", "abc"));
    assert!(!has_prefix("abc", "abcd"));
    assert!(!has_prefix("abc", "bc"));
    assert!(!has_prefix("", "a"));
    assert!(has_prefix("\u{e9}t\u{e9}", "\u{e9}t"));
}

#[test]
fn message_for_an_invalid_key() {
    assert_eq!(
        invalid_key_message("\"a-b\"", "malformed"),
        "constant global_key \"a-b\" is not a valid identifier: malformed"
    );
}
