use aliyun_openapi_core_rust_sdk::canonical::header_signature;
use aliyun_openapi_core_rust_sdk::client::error::{Error, HeaderError};
use aliyun_openapi_core_rust_sdk::client::log_service::{LogServiceClient, LogServiceError};

const DATE: &str = "Tue, 02 Jan 2024 03:04:05 GMT";
const BODY: &str = "{\"q\":\"hello\"}";

fn pairs(list: &[(&str, &str)]) -> Vec<(String, String)> {
    list.iter().map(|p| (p.0.to_string(), p.1.to_string())).collect()
}

#[test]
fn log_signed_request_with_project() {
    let q = LogServiceClient::new("testid", "testsecret", "https://cn-hangzhou.log.aliyuncs.com")
        .get("/logstores/logstore")
        .project("project")
        .signed_request_at(DATE)
        .unwrap();
    assert_eq!(q.method, "GET");
    assert_eq!(q.url, "https://project.cn-hangzhou.log.aliyuncs.com/logstores/logstore");
    assert_eq!(q.headers.get("host").unwrap(), "project.cn-hangzhou.log.aliyuncs.com");
    assert_eq!(q.headers.get("authorization").unwrap(), "SLS testid:tbZyVJ7lJviT7Gd4yf7yjjlWolg=");
    assert_eq!(q.headers.get("x-log-bodyrawsize").unwrap(), "0");
    assert_eq!(q.headers.get("accept").unwrap(), "application/json");
    assert_eq!(q.headers.get("x-log-apiversion").unwrap(), "0.6.0");
    assert_eq!(q.headers.get("x-log-signaturemethod").unwrap(), "hmac-sha1");
    assert_eq!(q.headers.get("date").unwrap(), DATE);
    assert_eq!(q.headers.len(), 9);
}

#[test]
fn log_signed_request_with_body_and_headers() {
    let q = LogServiceClient::new("testid", "testsecret", "http://cn-hangzhou.log.aliyuncs.com")
        .post("/logstores")
        .header(pairs(&[("x-log-bodyrawsize", "13"), ("X-Acs-Security-Token", "tok")]))
        .unwrap()
        .body(BODY)
        .unwrap()
        .query(pairs(&[("type", "1")]))
        .signed_request_at(DATE)
        .unwrap();
    assert_eq!(q.url, "http://cn-hangzhou.log.aliyuncs.com/logstores");
    assert_eq!(q.query, pairs(&[("type", "1")]));
    assert_eq!(q.body.as_deref(), Some(BODY));
    assert_eq!(q.headers.get("content-length").unwrap(), "13");
    assert_eq!(q.headers.get("content-md5").unwrap(), "Q9ZEYsd3XRGE1zdJ9OLINA==");
    assert_eq!(q.headers.get("x-log-bodyrawsize").unwrap(), "13");
    assert_eq!(q.headers.get("authorization").unwrap(), "SLS testid:3OJO84WXyu7PhRyrtqqd2w9ly0Q=");
}

#[test]
fn log_body_sets_length_and_base64_digest() {
    let q = LogServiceClient::new("id", "s", "https://h")
        .post("/x")
        .body("hello")
        .unwrap()
        .signed_request_at(DATE)
        .unwrap();
    assert_eq!(q.headers.get("content-length").unwrap(), "5");
    assert_eq!(q.headers.get("content-md5").unwrap(), "XUFAKrxLKna5cZ2REBfFkg==");
    assert_eq!(q.body.as_deref(), Some("hello"));
    let none = LogServiceClient::new("id", "s", "https://h").post("/x").signed_request_at(DATE).unwrap();
    assert!(none.headers.get("content-length").is_none());
    assert!(none.headers.get("content-md5").is_none());
}

#[test]
fn log_header_after_body_keeps_the_body_headers() {
    let q = LogServiceClient::new("id", "s", "https://h")
        .post("/x")
        .body("hello")
        .unwrap()
        .header(pairs(&[("x-log-note", "1"), ("content-length", "99")]))
        .unwrap()
        .signed_request_at(DATE)
        .unwrap();
    assert_eq!(q.headers.get("content-length").unwrap(), "5");
    assert_eq!(q.headers.get("content-md5").unwrap(), "XUFAKrxLKna5cZ2REBfFkg==");
    assert_eq!(q.headers.get("x-log-note").unwrap(), "1");
}

#[test]
fn log_header_refuses_bad_names_and_values() {
    let client = || LogServiceClient::new("id", "s", "https://h").get("/");
    match client().header(pairs(&[("ok", "1"), ("bad key", "1"), ("x", "a\nb")])) {
        Err(Error::InvalidHeader(HeaderError::Name(n))) => assert_eq!(n, "bad key"),
        _ => panic!("the name must be refused"),
    }
    assert!(matches!(
        client().header(pairs(&[("x", "a\nb")])),
        Err(Error::InvalidHeader(HeaderError::Value(_)))
    ));
}

#[test]
fn log_host_without_scheme() {
    let q = LogServiceClient::new("testid", "testsecret", "cn-hangzhou.log.aliyuncs.com")
        .get("/")
        .signed_request_at(DATE)
        .unwrap();
    assert_eq!(q.url, "cn-hangzhou.log.aliyuncs.com/");
    assert_eq!(q.headers.get("host").unwrap(), "cn-hangzhou.log.aliyuncs.com");
}

#[test]
fn log_accept_of_the_caller_is_kept() {
    let q = LogServiceClient::new("testid", "testsecret", "https://cn-hangzhou.log.aliyuncs.com")
        .get("/")
        .header(pairs(&[("Accept", "text/plain")]))
        .unwrap()
        .signed_request_at(DATE)
        .unwrap();
    assert_eq!(q.headers.get("accept").unwrap(), "text/plain");
}

#[test]
fn log_round_trip_of_the_signature() {
    let q = LogServiceClient::new("testid", "testsecret", "https://cn-hangzhou.log.aliyuncs.com")
        .post("/logstores")
        .project("project")
        .body(BODY)
        .unwrap()
        .signed_request()
        .unwrap();
    let again = header_signature("testsecret", &q.method, &q.headers, "/logstores", &q.query, true)
        .unwrap();
    let attached = q.headers.get("authorization").unwrap().to_str().unwrap();
    assert_eq!(attached, format!("SLS testid:{}", again));
}

#[test]
fn log_refusals() {
    let host = LogServiceClient::new("testid", "testsecret", "https://bad\nhost")
        .get("/")
        .signed_request_at(DATE);
    assert!(matches!(host, Err(Error::InvalidHeader(HeaderError::Value(_)))));
    let method = LogServiceClient::new("testid", "testsecret", "https://cn-hangzhou.log.aliyuncs.com")
        .request("G@T", "/")
        .signed_request_at(DATE);
    assert!(matches!(method, Err(Error::InvalidRequest(_))));
    let unreadable = LogServiceClient::new("testid", "testsecret", "https://h")
        .get("/")
        .header(pairs(&[("x-log-note", "é")]))
        .unwrap()
        .signed_request_at(DATE);
    assert!(matches!(unreadable, Err(Error::InvalidHeader(HeaderError::Unreadable))));
}

#[test]
fn log_error_envelope_has_no_request_id() {
    let e = LogServiceError {
        error_code: "Unauthorized".to_string(),
        error_message: "denied".to_string(),
    }
    .into_error();
    match e {
        Error::InvalidResponse { request_id, error_code, error_message } => {
            assert_eq!(request_id, "");
            assert_eq!(error_code, "Unauthorized");
            assert_eq!(error_message, "denied");
        }
        _ => panic!("an envelope gives an invalid response"),
    }
}
