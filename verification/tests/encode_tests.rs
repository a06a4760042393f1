use aliyun_openapi_core_rust_sdk::encode::url_encode;

#[test]
fn url_encode_test() {
    assert_eq!(
        url_encode("begin_+_*_~_-_._\"_ end"),
        "begin_%2B_%2A_~_-_._%22_%20end"
    );
}

#[test]
fn url_encode_empty() {
    assert_eq!(url_encode(""), "");
}

#[test]
fn url_encode_keeps_unreserved() {
    assert_eq!(
        url_encode("AZaz09-._~"),
        "AZaz09-._~"
    );
}

#[test]
fn url_encode_substitutions() {
    assert_eq!(url_encode(" "), "%20");
    assert_eq!(url_encode("+"), "%2B");
    assert_eq!(url_encode("*"), "%2A");
    assert_eq!(url_encode("~"), "~");
    assert_eq!(url_encode("/"), "%2F");
    assert_eq!(url_encode("="), "%3D");
    assert_eq!(url_encode("&"), "%26");
    assert_eq!(url_encode(":"), "%3A");
}

#[test]
fn url_encode_utf8_bytes() {
    assert_eq!(url_encode("你好"), "%E4%BD%A0%E5%A5%BD");
}

#[test]
fn url_encode_is_not_idempotent() {
    assert_eq!(url_encode("%7E"), "%257E");
    assert_eq!(url_encode(&url_encode("a b")), "a%2520b");
}
