use aliyun_oss_rust_sdk::oss::{OSS, OSSInfo};
use aliyun_oss_rust_sdk::request::RequestBuilder;

fn client() -> OSS {
    OSS::new("AK", "SK", "oss-cn-test.example.com", "b")
}

#[test]
fn presigned_url_known_answer() {
    let oss = client();
    let build = RequestBuilder::new().with_expire(60);
    let url = oss.sign_url("/a/b c.txt", &build, 1700000000);
    assert_eq!(
        url,
        "http://b.oss-cn-test.example.com/a/b%20c.txt?Expires=1700000060\
         &OSSAccessKeyId=AK&Signature=ZIJJ5Qo2QyqPQeMMdwCHTzUOqlQ%3D"
    );
}

#[test]
fn presigned_url_percent_encodes_path_segment() {
    let oss = client();
    let build = RequestBuilder::new().with_expire(60);
    let url = oss.sign_url("/a/b c.txt", &build, 1700000000);
    let path = &url[..url.find('?').unwrap()];
    assert!(path.ends_with("/a/b%20c.txt"));
    assert!(!path.contains(' '));
    assert_eq!(path.matches('/').count(), 4);
}

#[test]
fn presigned_url_couples_expiry_with_signature() {
    let oss = client();
    let build = RequestBuilder::new().with_expire(60);
    let url = oss.sign_url("/hello.txt", &build, 1700000000);
    assert!(url.contains("Expires=1700000060"));
    // The signature embedded in the URL is exactly the one over the
    // canonical string whose date slot holds that same expiration.
    let canonical = aliyun_oss_rust_sdk::auth::canonicalize(
        &aliyun_oss_rust_sdk::request::Method::Get,
        "",
        "",
        "1700000060",
        &Vec::new(),
        "/b/hello.txt",
    );
    let tag = oss.sign(&canonical);
    let sig = aliyun_oss_rust_sdk::encode::base64_encode(&tag);
    let sig_enc = aliyun_oss_rust_sdk::encode::url_encode(&sig);
    assert!(url.ends_with(&format!("Signature={}", sig_enc)));
}

#[test]
fn denylisted_parameter_never_reaches_url() {
    let oss = client();
    let build = RequestBuilder::new()
        .with_expire(60)
        .with_parameter("x-oss-ac-source-ip", "10.0.0.1")
        .with_parameter("response-content-type", "text/plain");
    let url = oss.sign_url("/k", &build, 1700000000);
    assert!(!url.contains("x-oss-ac-source-ip"));
    assert!(!url.contains("10.0.0.1"));
    assert!(url.contains("response-content-type=text%2Fplain"));
}

#[test]
fn query_names_sort_strictly_ascending() {
    let oss = client();
    let mut build = RequestBuilder::new().with_expire(60);
    let names = [
        "a", "aa", "ab", "abc", "b", "ba", "p1", "p10", "p2", "x-a", "x-aa", "z",
    ];
    for name in names {
        build = build.with_parameter(name, "1");
    }
    let url = oss.sign_url("/k", &build, 1700000000);
    let query = &url[url.find('?').unwrap() + 1..];
    let keys: Vec<&str> = query.split('&').map(|kv| &kv[..kv.find('=').unwrap()]).collect();
    assert_eq!(keys.len(), 15);
    for pair in keys.windows(2) {
        assert!(pair[0] < pair[1], "{} should sort before {}", pair[0], pair[1]);
    }
}

#[test]
fn reserved_names_last_write_wins() {
    let oss = client();
    let build = RequestBuilder::new()
        .with_expire(60)
        .with_parameter("Signature", "forged")
        .with_parameter("Expires", "999");
    let url = oss.sign_url("/hello.txt", &build, 1700000000);
    let query = &url[url.find('?').unwrap() + 1..];
    assert!(!query.contains("forged"));
    assert!(!query.contains("Expires=999"));
    assert_eq!(query.matches("Signature=").count(), 1);
    assert_eq!(query.matches("Expires=").count(), 1);
    assert!(query.contains("Expires=1700000060"));
}

#[test]
fn cdn_override_replaces_host_entirely() {
    let oss = client();
    let other = OSS::new("AK", "SK", "https://elsewhere.example.net", "other-bucket");
    let build = RequestBuilder::new().with_cdn("http://cdn.example.com");
    let url_a = oss.format_url("b", "/hello.txt", &build);
    let url_b = other.format_url("other-bucket", "/hello.txt", &build);
    assert_eq!(url_a, "http://cdn.example.com/hello.txt");
    assert_eq!(url_b, "http://cdn.example.com/hello.txt");
    let presigned = oss.sign_url(
        "/hello.txt",
        &RequestBuilder::new().with_expire(60).with_cdn("http://cdn.example.com"),
        1700000000,
    );
    assert!(presigned.starts_with("http://cdn.example.com/hello.txt?"));
}

#[test]
fn format_url_scheme_follows_endpoint() {
    let plain = client();
    let secure = OSS::new("AK", "SK", "https://oss.example.com", "b");
    let build = RequestBuilder::new();
    assert_eq!(
        plain.format_url("b", "/k", &build),
        "http://b.oss-cn-test.example.com/k"
    );
    assert_eq!(secure.format_url("b", "/k", &build), "https://b.oss.example.com/k");
}

#[test]
fn format_url_sorts_and_joins_parameters_verbatim() {
    let oss = client();
    let build = RequestBuilder::new()
        .with_parameter("b", "2")
        .with_parameter("a", "1");
    assert_eq!(
        oss.format_url("b", "/k", &build),
        "http://b.oss-cn-test.example.com/k?a=1&b=2"
    );
}

#[test]
fn format_url_roots_bare_keys() {
    let oss = client();
    let build = RequestBuilder::new();
    assert_eq!(oss.format_url("b", "k.txt", &build), "http://b.oss-cn-test.example.com/k.txt");
}
