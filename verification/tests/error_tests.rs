use aliyun_openapi_core_rust_sdk::client::error::{Error, HeaderError};
use aliyun_openapi_core_rust_sdk::client::roa::ROAServiceError;
use aliyun_openapi_core_rust_sdk::client::rpc::RPCServiceError;
use aliyun_openapi_core_rust_sdk::request::{agent, status_is_success};
use reqwest::header::HeaderValue;

fn field(v: &serde_json::Value, name: &str) -> String {
    v.get(name).and_then(|f| f.as_str()).unwrap_or("").to_string()
}

#[test]
fn forbidden_answer_gives_the_error_code() {
    let body = "{\"Code\":\"InvalidAccessKeyId.NotFound\",\"Message\":\"Specified access key is not found.\",\"RequestId\":\"X\"}";
    assert!(!status_is_success(403));
    let v: serde_json::Value = serde_json::from_str(body).unwrap();
    let envelope = RPCServiceError {
        code: field(&v, "Code"),
        message: field(&v, "Message"),
        request_id: field(&v, "RequestId"),
        recommend: field(&v, "Recommend"),
    };
    match envelope.into_error() {
        Error::InvalidResponse { request_id, error_code, error_message } => {
            assert_eq!(error_code, "InvalidAccessKeyId.NotFound");
            assert_eq!(error_message, "Specified access key is not found.");
            assert_eq!(request_id, "X");
        }
        _ => panic!("an envelope gives an invalid response"),
    }
}

#[test]
fn roa_envelope_gives_the_error() {
    let e = ROAServiceError {
        code: "Forbidden".to_string(),
        message: "no".to_string(),
        request_id: "".to_string(),
        recommend: "https://help".to_string(),
    }
    .into_error();
    assert_eq!(e.message(), "Request id: , Error code: Forbidden, Error message: no");
}

#[test]
fn status_of_success_is_200_to_299() {
    assert!(!status_is_success(199));
    assert!(status_is_success(200));
    assert!(status_is_success(204));
    assert!(status_is_success(299));
    assert!(!status_is_success(300));
    assert!(!status_is_success(404));
    assert!(!status_is_success(500));
    assert!(!status_is_success(0));
    assert!(!status_is_success(u16::MAX));
}

#[test]
fn error_messages() {
    assert_eq!(
        Error::Reqwest("operation timed out".to_string()).message(),
        "Reqwest error: operation timed out"
    );
    assert_eq!(
        Error::InvalidRequest("Invalid HTTP method: x".to_string()).message(),
        "Request error: Invalid HTTP method: x"
    );
    let bad = HeaderValue::from_str("a\nb").unwrap_err();
    assert_eq!(
        Error::InvalidHeader(HeaderError::Value(bad)).message(),
        "InvalidHeader error: failed to parse header value"
    );
    assert_eq!(
        Error::InvalidHeader(HeaderError::Name("bad key".to_string())).message(),
        "InvalidHeader error: invalid HTTP header name"
    );
    assert_eq!(
        Error::InvalidHeader(HeaderError::TooMany).message(),
        "InvalidHeader error: too many headers"
    );
    assert_eq!(
        Error::InvalidHeader(HeaderError::Unreadable).message(),
        "InvalidHeader error: failed to convert header to a str"
    );
    let e = Error::InvalidResponse {
        request_id: "R".to_string(),
        error_code: "C".to_string(),
        error_message: "M".to_string(),
    };
    assert_eq!(e.message(), "Request id: R, Error code: C, Error message: M");
}

#[test]
fn agent_names_the_library() {
    assert_eq!(agent(), "aliyun-openapi-core-rust-sdk/1.0.0");
}
