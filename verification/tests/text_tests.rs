use aliyun_openapi_core_rust_sdk::moment::{decimal_i128, decimal_u128};
use aliyun_openapi_core_rust_sdk::text::{
    bytes_less, concat2, concat3, decimal_string, has_prefix, join_strings, key_less, strip_prefix,
};

#[test]
fn concat_keeps_order() {
    assert_eq!(concat2("ab", "cd"), "abcd");
    assert_eq!(concat3("a", "", "b"), "ab");
}

#[test]
fn join_puts_separator_between() {
    let none: Vec<String> = vec![];
    assert_eq!(join_strings(&none, "&"), "");
    assert_eq!(join_strings(&vec!["a=1".to_string()], "&"), "a=1");
    assert_eq!(
        join_strings(&vec!["a=1".to_string(), "".to_string(), "b=2".to_string()], "&"),
        "a=1&&b=2"
    );
}

#[test]
fn decimal_string_writes_digits() {
    assert_eq!(decimal_string(0), "0");
    assert_eq!(decimal_string(9), "9");
    assert_eq!(decimal_string(10), "10");
    assert_eq!(decimal_string(1234567890), "1234567890");
    assert_eq!(decimal_string(usize::MAX), usize::MAX.to_string());
}

#[test]
fn decimal_of_wide_numbers() {
    assert_eq!(decimal_u128(u128::MAX), u128::MAX.to_string());
    assert_eq!(decimal_i128(1704164645000000006), "1704164645000000006");
    assert_eq!(decimal_i128(-42), "-42");
    assert_eq!(decimal_i128(0), "0");
    assert_eq!(decimal_i128(i128::MIN), i128::MIN.to_string());
    assert_eq!(decimal_i128(i128::MAX), i128::MAX.to_string());
}

#[test]
fn byte_order_is_lexicographic() {
    assert!(bytes_less(b"", b"a"));
    assert!(!bytes_less(b"", b""));
    assert!(!bytes_less(b"a", b""));
    assert!(bytes_less(b"ab", b"b"));
    assert!(bytes_less(b"a", b"ab"));
    assert!(!bytes_less(b"ab", b"ab"));
    assert!(bytes_less(&[0x7f], &[0x80]));
}

#[test]
fn key_order_is_byte_wise() {
    assert!(key_less("Action", "Format"));
    assert!(key_less("Z", "a"));
    assert!(!key_less("a", "Z"));
    assert!(key_less("z", "é"));
    assert!(!key_less("same", "same"));
}

#[test]
fn prefix_and_strip() {
    assert!(has_prefix("x-acs-version", "x-acs-"));
    assert!(!has_prefix("x-ac", "x-acs-"));
    assert!(has_prefix("abc", ""));
    assert!(!has_prefix("y-acs-version", "x-acs-"));
    assert_eq!(strip_prefix("http://host", "http://"), Some("host"));
    assert_eq!(strip_prefix("https://host", "http://"), None);
    assert_eq!(strip_prefix("éa", "é"), Some("a"));
}
