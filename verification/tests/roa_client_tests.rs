use aliyun_openapi_core_rust_sdk::canonical::{
    canonicalized_headers, header_signature, string_to_sign,
};
use aliyun_openapi_core_rust_sdk::client::error::{Error, HeaderError};
use aliyun_openapi_core_rust_sdk::client::roa::ROAClient;
use aliyun_openapi_core_rust_sdk::sign::sign;
use reqwest::header::{HeaderMap, HeaderValue};
use std::time::Duration;

const DATE: &str = "Tue, 02 Jan 2024 03:04:05 GMT";
const NONCE: &str = "1704164645000000006";
const BODY: &str = "{\"q\":\"hello\"}";

fn pairs(list: &[(&str, &str)]) -> Vec<(String, String)> {
    list.iter().map(|p| (p.0.to_string(), p.1.to_string())).collect()
}

fn regions() -> ROAClient {
    ROAClient::new("testid", "testsecret", "https://ros.aliyuncs.com")
        .version("2015-09-01")
        .get("/regions")
}

#[test]
fn roa_signed_request_of_regions() {
    let q = regions().signed_request_at(DATE, NONCE).unwrap();
    assert_eq!(q.method, "GET");
    assert_eq!(q.url, "https://ros.aliyuncs.com/regions");
    assert!(q.query.is_empty());
    assert!(q.body.is_none());
    assert_eq!(q.headers.get("authorization").unwrap(), "acs testid:A/GBA8KTVmpkQu3UuRt91nBZVjQ=");
    assert_eq!(q.headers.get("host").unwrap(), "ros.aliyuncs.com");
    assert_eq!(q.headers.get("date").unwrap(), DATE);
    assert_eq!(q.headers.get("accept").unwrap(), "application/json");
    assert_eq!(q.headers.get("x-acs-version").unwrap(), "2015-09-01");
    assert_eq!(q.headers.get("x-acs-signature-nonce").unwrap(), NONCE);
    assert_eq!(q.headers.get("x-acs-signature-method").unwrap(), "HMAC-SHA1");
    assert_eq!(q.headers.get("user-agent").unwrap(), "aliyun-openapi-core-rust-sdk/1.0.0");
    assert_eq!(q.headers.get("x-sdk-client").unwrap(), "aliyun-openapi-core-rust-sdk/1.0.0");
    assert!(q.headers.get("content-length").is_none());
    assert!(q.headers.get("content-md5").is_none());
    assert_eq!(q.headers.len(), 9);
}

#[test]
fn roa_post_with_body_and_query() {
    let q = ROAClient::new("testid", "testsecret", "http://mt.aliyuncs.com")
        .version("2018-04-08")
        .request("post", "/api/translate/web/general")
        .header(pairs(&[("Content-Type", "application/json")]))
        .unwrap()
        .body(BODY)
        .unwrap()
        .query(pairs(&[("b", "2"), ("a", "1")]))
        .timeout(Duration::from_secs(3))
        .signed_request_at(DATE, NONCE)
        .unwrap();
    assert_eq!(q.method, "post");
    assert_eq!(q.url, "http://mt.aliyuncs.com/api/translate/web/general");
    assert_eq!(q.query, pairs(&[("b", "2"), ("a", "1")]));
    assert_eq!(q.body.as_deref(), Some(BODY));
    assert_eq!(q.timeout, Some(Duration::from_secs(3)));
    assert_eq!(q.headers.get("content-length").unwrap(), "13");
    assert_eq!(q.headers.get("content-md5").unwrap(), "Q9ZEYsd3XRGE1zdJ9OLINA==");
    assert_eq!(q.headers.get("authorization").unwrap(), "acs testid:Z15Z7PBiw+si2cbClb0R4Y63Mf0=");
}

#[test]
fn roa_body_sets_length_in_bytes() {
    let q = regions().body("你好").unwrap().signed_request_at(DATE, NONCE).unwrap();
    assert_eq!(q.headers.get("content-length").unwrap(), "6");
    assert_eq!(q.headers.get("content-md5").unwrap(), "fsponw0zidnepmrhEuXP1w==");
    let empty = regions().body("").unwrap().signed_request_at(DATE, NONCE).unwrap();
    assert_eq!(empty.headers.get("content-length").unwrap(), "0");
    assert_eq!(empty.headers.get("content-md5").unwrap(), "1B2M2Y8AsgTpgAmY7PhCfg==");
    assert_eq!(empty.body.as_deref(), Some(""));
}

#[test]
fn roa_header_after_body_keeps_the_body_headers() {
    let q = regions()
        .body("hello")
        .unwrap()
        .header(pairs(&[("x-acs-extra", "1")]))
        .unwrap()
        .signed_request_at(DATE, NONCE)
        .unwrap();
    assert_eq!(q.headers.get("content-length").unwrap(), "5");
    assert_eq!(q.headers.get("content-md5").unwrap(), "XUFAKrxLKna5cZ2REBfFkg==");
    assert_eq!(q.headers.get("x-acs-extra").unwrap(), "1");
    assert_eq!(q.body.as_deref(), Some("hello"));
    let over = regions()
        .body("hello")
        .unwrap()
        .header(pairs(&[("Content-Length", "99"), ("content-md5", "x")]))
        .unwrap()
        .signed_request_at(DATE, NONCE)
        .unwrap();
    assert_eq!(over.headers.get("content-length").unwrap(), "5");
    assert_eq!(over.headers.get("content-md5").unwrap(), "XUFAKrxLKna5cZ2REBfFkg==");
    let first = regions()
        .header(pairs(&[("x-acs-extra", "1")]))
        .unwrap()
        .body("hello")
        .unwrap()
        .signed_request_at(DATE, NONCE)
        .unwrap();
    assert_eq!(first.headers.get("content-length").unwrap(), "5");
    assert_eq!(first.headers.get("x-acs-extra").unwrap(), "1");
    let later = regions()
        .body("first")
        .unwrap()
        .header(pairs(&[("x-acs-extra", "1")]))
        .unwrap()
        .header(pairs(&[("x-acs-other", "2")]))
        .unwrap()
        .signed_request_at(DATE, NONCE)
        .unwrap();
    assert!(later.headers.get("x-acs-extra").is_none());
    assert_eq!(later.headers.get("content-length").unwrap(), "5");
    let bare = regions().header(pairs(&[("x-acs-extra", "1")])).unwrap();
    let bare = bare.signed_request_at(DATE, NONCE).unwrap();
    assert!(bare.headers.get("content-length").is_none());
    assert!(bare.headers.get("content-md5").is_none());
}

#[test]
fn roa_header_refuses_bad_names_and_values() {
    match regions().header(pairs(&[("x-ok", "1"), ("bad key", "1"), ("x", "a\nb")])) {
        Err(Error::InvalidHeader(HeaderError::Name(n))) => assert_eq!(n, "bad key"),
        _ => panic!("the name must be refused"),
    }
    assert!(matches!(
        regions().header(pairs(&[("x", "a\nb"), ("bad key", "1")])),
        Err(Error::InvalidHeader(HeaderError::Value(_)))
    ));
    assert!(matches!(
        regions().header(pairs(&[("", "1")])),
        Err(Error::InvalidHeader(HeaderError::Name(_)))
    ));
}

#[test]
fn roa_round_trip_of_the_signature() {
    let q = regions()
        .query(pairs(&[("z", "26"), ("PageSize", "10")]))
        .body(BODY)
        .unwrap()
        .signed_request()
        .unwrap();
    let again = header_signature("testsecret", &q.method, &q.headers, "/regions", &q.query, false)
        .unwrap();
    let attached = q.headers.get("authorization").unwrap().to_str().unwrap();
    assert_eq!(attached, format!("acs testid:{}", again));
    let canonical = string_to_sign(&q.method, &q.headers, "/regions", &q.query, false).unwrap();
    assert_eq!(again, sign("testsecret", &canonical).unwrap());
    assert!(canonical.starts_with("GET\napplication/json\nQ9ZEYsd3XRGE1zdJ9OLINA==\n\n"));
    assert!(canonical.ends_with("\n/regions?PageSize=10&z=26"));
}

#[test]
fn roa_canonical_string_of_a_header_map() {
    let mut m = HeaderMap::new();
    m.insert("x-acs-b", HeaderValue::from_static("2"));
    m.insert("accept", HeaderValue::from_static("application/json"));
    m.insert("x-acs-a", HeaderValue::from_static("1"));
    m.insert("x-log-c", HeaderValue::from_static("3"));
    m.insert("date", HeaderValue::from_static(DATE));
    m.insert("other", HeaderValue::from_static("x:y"));
    assert_eq!(canonicalized_headers(&m, false).unwrap(), "x-acs-a:1\nx-acs-b:2");
    assert_eq!(canonicalized_headers(&m, true).unwrap(), "x-acs-a:1\nx-acs-b:2\nx-log-c:3");
    assert_eq!(canonicalized_headers(&HeaderMap::new(), false).unwrap(), "");
    assert_eq!(
        string_to_sign("get", &m, "/p", &pairs(&[]), false).unwrap(),
        "GET\napplication/json\n\n\nTue, 02 Jan 2024 03:04:05 GMT\nx-acs-a:1\nx-acs-b:2\n/p"
    );
    assert_eq!(
        string_to_sign("get", &m, "/p", &pairs(&[]), true).unwrap(),
        "GET\n\n\nTue, 02 Jan 2024 03:04:05 GMT\nx-acs-a:1\nx-acs-b:2\nx-log-c:3\n/p"
    );
    assert_eq!(
        string_to_sign("PUT", &HeaderMap::new(), "/", &pairs(&[("k", "v")]), false).unwrap(),
        "PUT\n\n\n\n\n\n/?k=v"
    );
}

#[test]
fn roa_separators_in_values_are_kept() {
    let mut m = HeaderMap::new();
    m.insert("x-acs-b", HeaderValue::from_static("v:w"));
    m.insert("x-acs-a", HeaderValue::from_static("x-acs-z:1"));
    m.insert("content-type", HeaderValue::from_static("a\tb"));
    assert_eq!(canonicalized_headers(&m, false).unwrap(), "x-acs-a:x-acs-z:1\nx-acs-b:v:w");
    assert_eq!(
        string_to_sign("GET", &m, "/p?x", &pairs(&[("k", "a&b=c")]), false).unwrap(),
        "GET\n\n\na\tb\n\nx-acs-a:x-acs-z:1\nx-acs-b:v:w\n/p?x?k=a&b=c"
    );
}

#[test]
fn roa_unreadable_header_is_refused() {
    let mut m = HeaderMap::new();
    m.insert("x-acs-a", HeaderValue::from_str("é").unwrap());
    assert!(canonicalized_headers(&m, false).is_none());
    assert!(string_to_sign("GET", &m, "/", &pairs(&[]), false).is_none());
    let quiet = regions().header(pairs(&[("x-other", "é")])).unwrap();
    assert!(quiet.signed_request_at(DATE, NONCE).is_ok());
    let r = regions().header(pairs(&[("content-type", "é")])).unwrap().signed_request_at(DATE, NONCE);
    match r {
        Err(e) => {
            assert!(matches!(e, Error::InvalidHeader(HeaderError::Unreadable)));
            assert_eq!(e.message(), "InvalidHeader error: failed to convert header to a str");
        }
        _ => panic!("the header must be refused"),
    }
}

#[test]
fn roa_refusals() {
    let endpoint = ROAClient::new("testid", "testsecret", "not a url")
        .get("/regions")
        .signed_request_at(DATE, NONCE);
    match endpoint {
        Err(Error::InvalidRequest(m)) => assert!(m.starts_with("Invalid endpoint: ")),
        _ => panic!("the endpoint must be refused"),
    }
    let no_host = ROAClient::new("testid", "testsecret", "data:text/plain,Stuff")
        .get("/regions")
        .signed_request_at(DATE, NONCE);
    assert!(matches!(no_host, Err(Error::InvalidRequest(_))));
    let version = ROAClient::new("testid", "testsecret", "https://ros.aliyuncs.com")
        .version("2015\n09")
        .get("/regions")
        .signed_request_at(DATE, NONCE);
    assert!(matches!(version, Err(Error::InvalidHeader(_))));
    let date = regions().signed_request_at("bad\ndate", NONCE);
    assert!(matches!(date, Err(Error::InvalidHeader(_))));
    let key = ROAClient::new("test\nid", "testsecret", "https://ros.aliyuncs.com")
        .get("/regions")
        .signed_request_at(DATE, NONCE);
    assert!(matches!(key, Err(Error::InvalidHeader(_))));
    let method = ROAClient::new("testid", "testsecret", "https://ros.aliyuncs.com")
        .request("", "/regions")
        .signed_request_at(DATE, NONCE);
    match method {
        Err(Error::InvalidRequest(m)) => {
            assert_eq!(m, "Invalid HTTP method: invalid HTTP method")
        }
        _ => panic!("the method must be refused"),
    }
}

#[test]
fn roa_project_is_kept_out_of_the_request() {
    let with = regions().project("p").signed_request_at(DATE, NONCE).unwrap();
    let without = regions().signed_request_at(DATE, NONCE).unwrap();
    assert_eq!(with.url, without.url);
    assert_eq!(with.headers, without.headers);
}
