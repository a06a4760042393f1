use aliyun_openapi_core_rust_sdk::canonical::canonicalized_resource;
use aliyun_openapi_core_rust_sdk::params::{
    pair_line_strings, push_str_pairs, sorted_has_repeated_key, sorted_pairs,
};

fn pairs(list: &[(&str, &str)]) -> Vec<(String, String)> {
    list.iter().map(|p| (p.0.to_string(), p.1.to_string())).collect()
}

#[test]
fn sorted_pairs_orders_by_key() {
    let sorted = sorted_pairs(&pairs(&[("b", "2"), ("a", "1"), ("C", "3"), ("aa", "4")]));
    assert_eq!(sorted, pairs(&[("C", "3"), ("a", "1"), ("aa", "4"), ("b", "2")]));
}

#[test]
fn sorted_pairs_is_stable() {
    let sorted = sorted_pairs(&pairs(&[("k", "2"), ("a", "x"), ("k", "1"), ("k", "3")]));
    assert_eq!(sorted, pairs(&[("a", "x"), ("k", "2"), ("k", "1"), ("k", "3")]));
}

#[test]
fn sorted_pairs_of_nothing() {
    assert_eq!(sorted_pairs(&pairs(&[])), pairs(&[]));
}

#[test]
fn sorted_pairs_does_not_depend_on_order() {
    let a = sorted_pairs(&pairs(&[("x", "1"), ("y", "2"), ("z", "3")]));
    let b = sorted_pairs(&pairs(&[("z", "3"), ("x", "1"), ("y", "2")]));
    let c = sorted_pairs(&pairs(&[("y", "2"), ("z", "3"), ("x", "1")]));
    assert_eq!(a, b);
    assert_eq!(a, c);
}

#[test]
fn repeated_keys_are_found() {
    assert!(sorted_has_repeated_key(&pairs(&[("a", "1"), ("a", "2"), ("b", "3")])));
    assert!(!sorted_has_repeated_key(&pairs(&[("a", "1"), ("b", "2"), ("c", "3")])));
    assert!(!sorted_has_repeated_key(&pairs(&[])));
}

#[test]
fn pair_lines_and_appending() {
    assert_eq!(
        pair_line_strings(&pairs(&[("a", "1"), ("b", "")]), "="),
        vec!["a=1".to_string(), "b=".to_string()]
    );
    let mut list = pairs(&[("a", "1")]);
    push_str_pairs(&mut list, &[("b", "2"), ("c", "3")]);
    assert_eq!(list, pairs(&[("a", "1"), ("b", "2"), ("c", "3")]));
}

#[test]
fn canonicalized_resource_sorts_the_query() {
    assert_eq!(canonicalized_resource("/regions", &pairs(&[])), "/regions");
    assert_eq!(
        canonicalized_resource("/path", &pairs(&[("b", "2"), ("a", "1")])),
        "/path?a=1&b=2"
    );
    assert_eq!(
        canonicalized_resource("/path", &pairs(&[("a", "b c"), ("A", "*")])),
        "/path?A=*&a=b c"
    );
}
