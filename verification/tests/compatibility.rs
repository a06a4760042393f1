use aliyun_openapi_core_rust_sdk::client::error::{Error, HeaderError};
use aliyun_openapi_core_rust_sdk::encode::url_encode;
use aliyun_openapi_core_rust_sdk::sign::sign;
use aliyun_openapi_core_rust_sdk::{roa, rpc, ROAClient, RPClient};
use std::time::Duration;

const TIMESTAMP: &str = "2024-01-02T03:04:05.000000006Z";
const DATE: &str = "Tue, 02 Jan 2024 03:04:05 GMT";

fn rpc_client() -> RPClient {
    RPClient::new(
        String::from("testid"),
        String::from("testsecret"),
        String::from("https://ecs.aliyuncs.com/"),
        String::from("2014-05-26"),
    )
}

fn roa_client() -> ROAClient {
    ROAClient::new(
        String::from("testid"),
        String::from("testsecret"),
        String::from("https://ros.aliyuncs.com"),
        String::from("2015-09-01"),
    )
}

#[test]
fn borrowing_rpc_request_signs_a_get() {
    let q = rpc_client()
        .request_at("DescribeInstances", &[("RegionId", "cn-hangzhou")], TIMESTAMP, "uuid-nonce")
        .unwrap();
    assert_eq!(q.method, "GET");
    assert_eq!(
        q.url,
        "https://ecs.aliyuncs.com/?Signature=%2BRqWs8%2FaoYjuq0yI3tjyckpU%2BwI%3D&AccessKeyId=testid&Action=DescribeInstances&Format=JSON&RegionId=cn-hangzhou&SignatureMethod=HMAC-SHA1&SignatureNonce=uuid-nonce&SignatureVersion=1.0&Timestamp=2024-01-02T03%3A04%3A05.000000006Z&Version=2014-05-26"
    );
    assert!(q.headers.is_empty());
    let empty = rpc_client().request_at("DescribeRegions", &[], TIMESTAMP, "n").unwrap();
    assert!(empty.url.contains("&Action=DescribeRegions&"));
}

#[test]
fn borrowing_rpc_builder_gives_the_same_url() {
    let client = rpc_client();
    let q = client
        .get("DescribeInstances")
        .query(&[("RegionId", "cn-hangzhou")])
        .signed_request_at(TIMESTAMP, "uuid-nonce")
        .unwrap();
    let direct = client
        .request_at("DescribeInstances", &[("RegionId", "cn-hangzhou")], TIMESTAMP, "uuid-nonce")
        .unwrap();
    assert_eq!(q.url, direct.url);
    assert_eq!(q.timeout, Some(Duration::from_secs(30)));
    assert_eq!(direct.timeout, Some(Duration::from_secs(30)));
}

#[test]
fn borrowing_rpc_builder_appends_queries_and_signs_post() {
    let client = rpc_client();
    let q = client
        .post("DescribeInstances")
        .query(&[("RegionId", "cn-hangzhou")])
        .query(&[("PageSize", "10")])
        .timeout(Some(Duration::from_millis(1)))
        .signed_request_at(TIMESTAMP, "1704164645000000006")
        .unwrap();
    assert_eq!(q.method, "POST");
    assert_eq!(
        q.url,
        "https://ecs.aliyuncs.com/?Signature=RBmJxmAhkP%2BccxN%2Fq4nn3Q6gwnI%3D&AccessKeyId=testid&Action=DescribeInstances&Format=JSON&PageSize=10&RegionId=cn-hangzhou&SignatureMethod=HMAC-SHA1&SignatureNonce=1704164645000000006&SignatureVersion=1.0&Timestamp=2024-01-02T03%3A04%3A05.000000006Z&Version=2014-05-26"
    );
    assert_eq!(q.timeout, Some(Duration::from_millis(1)));
}

#[test]
fn borrowing_rpc_refusals() {
    let client = rpc_client();
    let twice = client
        .get("A")
        .query(&[("k", "1"), ("k", "2")])
        .signed_request_at(TIMESTAMP, "n");
    assert!(matches!(twice, Err(Error::InvalidRequest(_))));
    let method = client.execute("B A D", "A").signed_request_at(TIMESTAMP, "n");
    assert!(matches!(method, Err(Error::InvalidRequest(_))));
    let direct = client.request_at("A", &[("Action", "B")], TIMESTAMP, "n");
    assert!(matches!(direct, Err(Error::InvalidRequest(_))));
}

#[test]
fn borrowing_rpc_signs_at_the_present_moment() {
    let client = rpc_client();
    let q = client.request("DescribeRegions", &[]).unwrap();
    let (_, rest) = q.url.split_once("?Signature=").unwrap();
    let (signature, query_string) = rest.split_once('&').unwrap();
    let canonical = format!("GET&{}&{}", url_encode("/"), url_encode(query_string));
    assert_eq!(signature, url_encode(&sign("testsecret&", &canonical).unwrap()));
    let first = client.get("DescribeRegions").signed_request().unwrap();
    let second = client.get("DescribeRegions").signed_request().unwrap();
    assert_ne!(first.url, second.url);
}

#[test]
fn borrowing_roa_builder_signs_regions() {
    let client = roa_client();
    let q = client.get("/regions").signed_request_at(DATE, "uuid-nonce").unwrap();
    assert_eq!(q.method, "GET");
    assert_eq!(q.url, "https://ros.aliyuncs.com/regions");
    assert_eq!(q.headers.get("authorization").unwrap(), "acs testid:oFNCafw7C5ELQFAq9n+uBmxNxtw=");
    assert_eq!(q.headers.get("x-acs-signature-version").unwrap(), "1.0");
    assert_eq!(q.headers.get("x-acs-version").unwrap(), "2015-09-01");
    assert_eq!(q.headers.get("host").unwrap(), "ros.aliyuncs.com");
    assert_eq!(q.headers.len(), 10);
}

#[test]
fn borrowing_roa_builder_reports_bad_headers() {
    let client = roa_client();
    let name = client
        .post("/api")
        .header(&[("Content-Type", "application/json"), ("bad key", "1"), ("x-a", "a\nb")])
        .body("{\"q\":\"hello\"}")
        .unwrap()
        .header(&[("x-b", "c\nd")])
        .signed_request_at(DATE, "n");
    match name {
        Err(Error::InvalidHeader(HeaderError::Name(n))) => assert_eq!(n, "bad key"),
        _ => panic!("the name must be refused"),
    }
    let value = client.get("/api").header(&[("x-a", "a\nb"), ("bad key", "1")]);
    assert!(matches!(
        value.signed_request_at(DATE, "n"),
        Err(Error::InvalidHeader(HeaderError::Value(_)))
    ));
    assert!(matches!(
        client.get("/api").header(&[("x-a", "a\nb")]).signed_request(),
        Err(Error::InvalidHeader(HeaderError::Value(_)))
    ));
    let names: Vec<String> = (0..4003).map(|i| format!("x-h{}", i)).collect();
    let list: Vec<(&str, &str)> = names.iter().map(|n| (n.as_str(), "v")).collect();
    assert!(client.get("/api").header(&list[..4002]).signed_request_at(DATE, "n").is_ok());
    assert!(matches!(
        client.get("/api").header(&list).signed_request_at(DATE, "n"),
        Err(Error::InvalidHeader(HeaderError::TooMany))
    ));
    assert!(matches!(
        client.get("/api").header(&list[..4001]).body("b"),
        Err(Error::InvalidHeader(HeaderError::TooMany))
    ));
}

#[test]
fn borrowing_roa_builder_keeps_the_body_headers() {
    let client = roa_client();
    let q = client
        .post("/api")
        .body("hello")
        .unwrap()
        .header(&[("Content-Length", "99"), ("content-md5", "x"), ("x-acs-extra", "1")])
        .signed_request_at(DATE, "n")
        .unwrap();
    assert_eq!(q.headers.get("content-length").unwrap(), "5");
    assert_eq!(q.headers.get("content-md5").unwrap(), "XUFAKrxLKna5cZ2REBfFkg==");
    assert_eq!(q.headers.get("x-acs-extra").unwrap(), "1");
    assert_eq!(q.body.as_deref(), Some("hello"));
    let bare = client.get("/api").signed_request_at(DATE, "n").unwrap();
    assert!(bare.headers.get("content-length").is_none());
    assert!(bare.headers.get("content-md5").is_none());
    assert!(bare.body.is_none());
}

#[test]
fn borrowing_roa_builder_takes_headers_body_and_queries() {
    let client = roa_client();
    let q = client
        .post("/api")
        .header(&[("Content-Type", "application/json")])
        .body("{\"q\":\"hello\"}")
        .unwrap()
        .query(&[("b", "2")])
        .query(&[("a", "1")])
        .timeout(None)
        .signed_request_at(DATE, "n")
        .unwrap();
    assert_eq!(q.headers.get("content-type").unwrap(), "application/json");
    assert!(q.headers.get("x-a").is_none());
    assert_eq!(q.headers.get("content-length").unwrap(), "13");
    assert_eq!(q.headers.get("content-md5").unwrap(), "Q9ZEYsd3XRGE1zdJ9OLINA==");
    assert_eq!(q.body.as_deref(), Some("{\"q\":\"hello\"}"));
    assert_eq!(q.query.len(), 2);
    assert_eq!(q.headers.len(), 13);
    assert!(q.timeout.is_none());
    let kept = client.get("/regions").signed_request_at(DATE, "n").unwrap();
    assert_eq!(kept.timeout, Some(Duration::from_secs(30)));
}

#[test]
fn borrowing_roa_methods_and_refusals() {
    let client = roa_client();
    assert_eq!(client.put("/x").signed_request_at(DATE, "n").unwrap().method, "PUT");
    assert_eq!(client.post("/x").signed_request_at(DATE, "n").unwrap().method, "POST");
    assert_eq!(client.execute("DELETE", "/x").signed_request_at(DATE, "n").unwrap().method, "DELETE");
    let version = ROAClient::new(
        String::from("testid"),
        String::from("testsecret"),
        String::from("https://ros.aliyuncs.com"),
        String::from("bad\nversion"),
    );
    let r = version.get("/regions").signed_request_at(DATE, "n");
    assert!(matches!(r, Err(Error::InvalidHeader(HeaderError::Value(_)))));
    let endpoint = ROAClient::new(
        String::from("testid"),
        String::from("testsecret"),
        String::from("nowhere"),
        String::from("2015-09-01"),
    );
    assert!(matches!(
        endpoint.get("/regions").signed_request_at(DATE, "n"),
        Err(Error::InvalidRequest(_))
    ));
}

#[test]
fn borrowing_roa_signs_at_the_present_moment() {
    let client = roa_client();
    let q = client.get("/regions").signed_request().unwrap();
    let date = q.headers.get("date").unwrap().to_str().unwrap();
    assert!(date.ends_with(" GMT"));
    assert_eq!(date.len(), 29);
    assert_eq!(q.headers.get("x-acs-signature-nonce").unwrap().len(), 36);
}

#[test]
fn builders_can_be_made_directly() {
    let b = rpc::RequestBuilder::new(
        "testid",
        "testsecret",
        "https://ecs.aliyuncs.com/",
        "2014-05-26",
        String::from("GET"),
        String::from("DescribeInstances"),
    );
    let q = b.query(&[("RegionId", "cn-hangzhou")]).signed_request_at(TIMESTAMP, "uuid-nonce").unwrap();
    assert!(q.url.starts_with("https://ecs.aliyuncs.com/?Signature=%2BRqWs8%2FaoYjuq0yI3tjyckpU%2BwI%3D&"));
    let r = roa::RequestBuilder::new(
        "testid",
        "testsecret",
        "https://ros.aliyuncs.com",
        "2015-09-01",
        String::from("GET"),
        String::from("/regions"),
    );
    let q = r.signed_request_at(DATE, "uuid-nonce").unwrap();
    assert_eq!(q.headers.get("authorization").unwrap(), "acs testid:oFNCafw7C5ELQFAq9n+uBmxNxtw=");
}
