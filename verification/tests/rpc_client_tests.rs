use aliyun_openapi_core_rust_sdk::client::error::{Error, HeaderError};
use aliyun_openapi_core_rust_sdk::client::rpc::RPClient;
use aliyun_openapi_core_rust_sdk::encode::url_encode;
use aliyun_openapi_core_rust_sdk::query_sign::{rpc_parameters, rpc_signed_url, url_encoded_pairs};
use aliyun_openapi_core_rust_sdk::sign::sign;
use std::time::Duration;

const TIMESTAMP: &str = "2024-01-02T03:04:05.000000006Z";
const NONCE: &str = "1704164645000000006";

fn pairs(list: &[(&str, &str)]) -> Vec<(String, String)> {
    list.iter().map(|p| (p.0.to_string(), p.1.to_string())).collect()
}

fn describe_regions() -> RPClient {
    RPClient::new("testid", "testsecret", "https://ecs.aliyuncs.com/")
        .version("2014-05-26")
        .get("DescribeRegions")
}

#[test]
fn rpc_signed_url_of_describe_regions() {
    let q = describe_regions().signed_request_at(TIMESTAMP, NONCE).unwrap();
    assert_eq!(q.method, "GET");
    assert_eq!(
        q.url,
        "https://ecs.aliyuncs.com/?Signature=G3DwB27R%2BFaEI8fDhAY%2FqWVeHgY%3D&AccessKeyId=testid&Action=DescribeRegions&Format=JSON&SignatureMethod=HMAC-SHA1&SignatureNonce=1704164645000000006&SignatureVersion=1.0&Timestamp=2024-01-02T03%3A04%3A05.000000006Z&Version=2014-05-26"
    );
    assert!(q.query.is_empty());
    assert!(q.body.is_none());
    assert!(q.timeout.is_none());
}

#[test]
fn rpc_end_to_end_query_string_and_signature() {
    let q = describe_regions().signed_request_at(TIMESTAMP, NONCE).unwrap();
    let (endpoint, rest) = q.url.split_once("?Signature=").unwrap();
    assert_eq!(endpoint, "https://ecs.aliyuncs.com/");
    let (signature, query_string) = rest.split_once('&').unwrap();
    let mut fields: Vec<&str> = query_string.split('&').collect();
    fields.sort();
    assert_eq!(
        fields.join("&"),
        format!(
            "AccessKeyId=testid&Action=DescribeRegions&Format=JSON&SignatureMethod=HMAC-SHA1&SignatureNonce={}&SignatureVersion=1.0&Timestamp={}&Version=2014-05-26",
            NONCE,
            url_encode(TIMESTAMP)
        )
    );
    let canonical = format!("GET&{}&{}", url_encode("/"), url_encode(query_string));
    let expected = sign("testsecret&", &canonical).unwrap();
    assert_eq!(expected, "G3DwB27R+FaEI8fDhAY/qWVeHgY=");
    assert_eq!(signature, url_encode(&expected));
}

#[test]
fn rpc_url_without_query_is_written_out() {
    let id = "te st/id";
    let nonce = "n+1*2~3";
    let version = "2014 05";
    let q = RPClient::new(id, "s3cret", "https://ecs.aliyuncs.com/")
        .version(version)
        .post("Describe Regions")
        .signed_request_at(TIMESTAMP, nonce)
        .unwrap();
    let query_string = format!(
        "AccessKeyId={}&Action={}&Format=JSON&SignatureMethod=HMAC-SHA1&SignatureNonce={}&SignatureVersion=1.0&Timestamp={}&Version={}",
        url_encode(id),
        url_encode("Describe Regions"),
        url_encode(nonce),
        url_encode(TIMESTAMP),
        url_encode(version)
    );
    assert_eq!(
        query_string,
        "AccessKeyId=te%20st%2Fid&Action=Describe%20Regions&Format=JSON&SignatureMethod=HMAC-SHA1&SignatureNonce=n%2B1%2A2~3&SignatureVersion=1.0&Timestamp=2024-01-02T03%3A04%3A05.000000006Z&Version=2014%2005"
    );
    let canonical = format!("POST&{}&{}", url_encode("/"), url_encode(&query_string));
    let signature = sign("s3cret&", &canonical).unwrap();
    assert_eq!(
        q.url,
        format!("https://ecs.aliyuncs.com/?Signature={}&{}", url_encode(&signature), query_string)
    );
}

#[test]
fn rpc_post_with_query_signs_the_method() {
    let q = RPClient::new("testid", "testsecret", "https://ecs.aliyuncs.com/")
        .version("2014-05-26")
        .post("DescribeInstances")
        .query(pairs(&[("RegionId", "cn-hangzhou"), ("PageSize", "10")]))
        .timeout(Duration::from_millis(1))
        .signed_request_at(TIMESTAMP, NONCE)
        .unwrap();
    assert_eq!(q.method, "POST");
    assert_eq!(
        q.url,
        "https://ecs.aliyuncs.com/?Signature=RBmJxmAhkP%2BccxN%2Fq4nn3Q6gwnI%3D&AccessKeyId=testid&Action=DescribeInstances&Format=JSON&PageSize=10&RegionId=cn-hangzhou&SignatureMethod=HMAC-SHA1&SignatureNonce=1704164645000000006&SignatureVersion=1.0&Timestamp=2024-01-02T03%3A04%3A05.000000006Z&Version=2014-05-26"
    );
    assert_eq!(q.timeout, Some(Duration::from_millis(1)));
}

#[test]
fn rpc_url_does_not_depend_on_query_order() {
    let build = |query: &[(&str, &str)]| {
        RPClient::new("testid", "testsecret", "https://ecs.aliyuncs.com/")
            .version("2014-05-26")
            .get("DescribeInstances")
            .query(pairs(query))
            .signed_request_at(TIMESTAMP, NONCE)
            .unwrap()
            .url
    };
    let a = build(&[("RegionId", "cn-hangzhou"), ("PageSize", "10"), ("Tag", "a b")]);
    let b = build(&[("Tag", "a b"), ("RegionId", "cn-hangzhou"), ("PageSize", "10")]);
    let c = build(&[("PageSize", "10"), ("Tag", "a b"), ("RegionId", "cn-hangzhou")]);
    assert_eq!(a, b);
    assert_eq!(a, c);
    assert!(a.contains("&Tag=a%20b&"));
}

#[test]
fn rpc_round_trip_of_the_signature() {
    let q = RPClient::new("id", "s3cret", "https://ecs.aliyuncs.com/")
        .version("2014-05-26")
        .get("DescribeInstances")
        .query(pairs(&[("RegionId", "cn-hangzhou")]))
        .signed_request()
        .unwrap();
    let (_, rest) = q.url.split_once("?Signature=").unwrap();
    let (signature, query_string) = rest.split_once('&').unwrap();
    let canonical = format!("{}&{}&{}", q.method, url_encode("/"), url_encode(query_string));
    assert_eq!(signature, url_encode(&sign("s3cret&", &canonical).unwrap()));
    assert!(query_string.starts_with("AccessKeyId=id&Action=DescribeInstances&Format=JSON&RegionId=cn-hangzhou&"));
    assert!(query_string.contains("&Timestamp="));
    assert!(query_string.ends_with("&Version=2014-05-26"));
}

#[test]
fn rpc_repeated_key_is_refused() {
    let twice = RPClient::new("testid", "testsecret", "https://ecs.aliyuncs.com/")
        .get("DescribeInstances")
        .query(pairs(&[("RegionId", "a"), ("RegionId", "b")]))
        .signed_request_at(TIMESTAMP, NONCE);
    match twice {
        Err(Error::InvalidRequest(m)) => assert_eq!(m, "Duplicate query parameter"),
        _ => panic!("a repeated key must be refused"),
    }
    let fixed = RPClient::new("testid", "testsecret", "https://ecs.aliyuncs.com/")
        .get("DescribeInstances")
        .query(pairs(&[("Format", "XML")]))
        .signed_request_at(TIMESTAMP, NONCE);
    assert!(matches!(fixed, Err(Error::InvalidRequest(_))));
}

#[test]
fn rpc_invalid_method_is_refused() {
    let r = RPClient::new("testid", "testsecret", "https://ecs.aliyuncs.com/")
        .request("GE T", "DescribeRegions")
        .signed_request_at(TIMESTAMP, NONCE);
    match r {
        Err(Error::InvalidRequest(m)) => {
            assert_eq!(m, "Invalid HTTP method: invalid HTTP method")
        }
        _ => panic!("the method must be refused"),
    }
    let unset = RPClient::new("testid", "testsecret", "https://ecs.aliyuncs.com/")
        .signed_request_at(TIMESTAMP, NONCE);
    assert!(matches!(unset, Err(Error::InvalidRequest(_))));
}

#[test]
fn rpc_headers_name_the_library() {
    let q = describe_regions()
        .header(pairs(&[("X-Custom", "1"), ("user-agent", "mine")]))
        .unwrap()
        .signed_request_at(TIMESTAMP, NONCE)
        .unwrap();
    assert_eq!(q.headers.len(), 3);
    assert_eq!(q.headers.get("user-agent").unwrap(), "aliyun-openapi-core-rust-sdk/1.0.0");
    assert_eq!(q.headers.get("x-sdk-client").unwrap(), "aliyun-openapi-core-rust-sdk/1.0.0");
    assert_eq!(q.headers.get("x-custom").unwrap(), "1");
}

#[test]
fn rpc_header_refuses_bad_names_and_values() {
    let name = describe_regions().header(pairs(&[("x-ok", "1"), ("bad key", "1")]));
    match name {
        Err(Error::InvalidHeader(HeaderError::Name(n))) => assert_eq!(n, "bad key"),
        _ => panic!("the name must be refused"),
    }
    let value = describe_regions().header(pairs(&[("x-a", "line\nbreak")]));
    match value {
        Err(e) => {
            assert!(matches!(e, Error::InvalidHeader(HeaderError::Value(_))));
            assert_eq!(e.message(), "InvalidHeader error: failed to parse header value");
        }
        _ => panic!("the value must be refused"),
    }
    let long = "a".repeat(65536);
    assert!(matches!(
        describe_regions().header(pairs(&[(long.as_str(), "1")])),
        Err(Error::InvalidHeader(HeaderError::Name(_)))
    ));
    let longest = "A".repeat(65535);
    let kept = describe_regions().header(pairs(&[(longest.as_str(), "1")])).unwrap();
    let kept = kept.signed_request_at(TIMESTAMP, NONCE).unwrap();
    assert_eq!(kept.headers.get("a".repeat(65535).as_str()).unwrap(), "1");
    let marks = describe_regions()
        .header(pairs(&[("!\"#$%&'*+-.^_`|~09AZaz", "1")]))
        .unwrap()
        .signed_request_at(TIMESTAMP, NONCE)
        .unwrap();
    assert_eq!(marks.headers.get("!\"#$%&'*+-.^_`|~09azaz").unwrap(), "1");
    let many: Vec<(String, String)> =
        (0..4001).map(|i| (format!("x-h{}", i), "v".to_string())).collect();
    assert!(matches!(
        describe_regions().header(many),
        Err(Error::InvalidHeader(HeaderError::TooMany))
    ));
    let room: Vec<(String, String)> =
        (0..4000).map(|i| (format!("x-h{}", i), "v".to_string())).collect();
    let q = describe_regions().header(room).unwrap().signed_request_at(TIMESTAMP, NONCE).unwrap();
    assert_eq!(q.headers.len(), 4002);
}

#[test]
fn rpc_parameters_and_signed_url() {
    let params = rpc_parameters(
        "DescribeInstances",
        "testid",
        "uuid-nonce",
        TIMESTAMP,
        "2014-05-26",
        &pairs(&[("RegionId", "cn-hangzhou")]),
    );
    assert_eq!(params.len(), 9);
    assert_eq!(params[0], ("Format".to_string(), "JSON".to_string()));
    assert_eq!(params[3], ("Action".to_string(), "DescribeInstances".to_string()));
    assert_eq!(params[8], ("RegionId".to_string(), "cn-hangzhou".to_string()));
    let url = rpc_signed_url("https://ecs.aliyuncs.com/", "testsecret", "GET", &params).unwrap();
    assert_eq!(
        url,
        "https://ecs.aliyuncs.com/?Signature=%2BRqWs8%2FaoYjuq0yI3tjyckpU%2BwI%3D&AccessKeyId=testid&Action=DescribeInstances&Format=JSON&RegionId=cn-hangzhou&SignatureMethod=HMAC-SHA1&SignatureNonce=uuid-nonce&SignatureVersion=1.0&Timestamp=2024-01-02T03%3A04%3A05.000000006Z&Version=2014-05-26"
    );
    assert_eq!(
        url_encoded_pairs(&pairs(&[("a b", "c*d"), ("~", "+")])),
        pairs(&[("a%20b", "c%2Ad"), ("~", "%2B")])
    );
}
