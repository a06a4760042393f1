use aliyun_openapi_core_rust_sdk::sign::{md5_base64, sign};

#[test]
fn sign_known_vector() {
    let s = sign("key", "The quick brown fox jumps over the lazy dog").unwrap();
    assert_eq!(s, "3nybhbi3iqa8ino29wqQcBydtNk=");
}

#[test]
fn sign_accepts_empty_key_and_body() {
    assert_eq!(sign("", "").unwrap(), "+9sdGxiqbAgyS31ktx+3Y3BpDh0=");
}

#[test]
fn sign_is_deterministic() {
    let a = sign("secret&", "GET&%2F&Action%3DDescribeRegions").unwrap();
    let b = sign("secret&", "GET&%2F&Action%3DDescribeRegions").unwrap();
    assert_eq!(a, b);
    assert_eq!(a.len(), 28);
}

#[test]
fn sign_changes_with_each_byte() {
    let body = "GET&%2F&AccessKeyId%3Dtestid%26Action%3DDescribeRegions";
    let unchanged = sign("secret&", body).unwrap();
    let bytes = body.as_bytes();
    for i in 0..bytes.len() {
        let mut changed = bytes.to_vec();
        changed[i] = if changed[i] == b'x' { b'y' } else { b'x' };
        let changed = String::from_utf8(changed).unwrap();
        assert_ne!(sign("secret&", &changed).unwrap(), unchanged);
    }
    assert_ne!(sign("secret", body).unwrap(), unchanged);
}

#[test]
fn md5_base64_known_vectors() {
    assert_eq!(md5_base64(""), "1B2M2Y8AsgTpgAmY7PhCfg==");
    assert_eq!(md5_base64("{\"q\":\"hello\"}"), "Q9ZEYsd3XRGE1zdJ9OLINA==");
    assert_eq!(md5_base64("你好"), "fsponw0zidnepmrhEuXP1w==");
}

#[test]
fn md5_base64_has_22_digits_and_two_pads() {
    for body in ["", "hello", "{\"q\":\"hello\"}"] {
        let s = md5_base64(body);
        assert_eq!(s.len(), 24);
        assert!(s.ends_with("=="));
        assert!(s[..22].chars().all(|c| c.is_ascii_alphanumeric() || c == '+' || c == '/'));
    }
    assert_eq!(md5_base64("hello"), "XUFAKrxLKna5cZ2REBfFkg==");
}

#[test]
fn sign_has_27_digits_and_one_pad() {
    let long = "k".repeat(200);
    for (key, body) in [("", ""), ("key", "body"), (long.as_str(), "x"), ("s&", "GET&%2F&a%3Db")] {
        let s = sign(key, body).unwrap();
        assert_eq!(s.len(), 28);
        assert!(s.ends_with('='));
        assert!(s[..27].chars().all(|c| c.is_ascii_alphanumeric() || c == '+' || c == '/'));
    }
}
