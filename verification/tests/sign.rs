use aliyun_oss_rust_sdk::auth::canonicalize;
use aliyun_oss_rust_sdk::oss::{API, OSS, OSSInfo};
use aliyun_oss_rust_sdk::request::{Method, RequestBuilder};

fn client() -> OSS {
    OSS::new("AK", "SK", "oss-cn-test.example.com", "b")
}

#[test]
fn known_answer_canonical_string() {
    let canonical = canonicalize(
        &Method::Get,
        "",
        "",
        "1700000000",
        &Vec::new(),
        "/b/hello.txt",
    );
    assert_eq!(canonical, "GET\n\n\n1700000000\n/b/hello.txt");
}

#[test]
fn known_answer_signature() {
    let oss = client();
    let build = RequestBuilder::new();
    let auth = oss.oss_sign("/hello.txt", "1700000000", &build);
    assert_eq!(auth, "OSS AK:i7WeAiBwNHGGtE3yE/NguiX04ac=");
}

#[test]
fn canonical_sorts_and_filters_vendor_headers() {
    let build = RequestBuilder::new()
        .with_header("x-oss-b", "2")
        .with_header("Host", "ignored.example.com")
        .with_header("x-oss-a", "1");
    let canonical = canonicalize(
        &Method::Put,
        "",
        "text/plain",
        "D",
        &build.headers,
        "/b/k.txt",
    );
    assert_eq!(
        canonical,
        "PUT\n\ntext/plain\nD\nx-oss-a:1\nx-oss-b:2\n/b/k.txt"
    );
}

#[test]
fn date_renders_http_date() {
    let oss = client();
    assert_eq!(oss.date(1700000000), "Tue, 14 Nov 2023 22:13:20 GMT");
}

#[test]
fn build_request_headers_carry_signed_date() {
    let oss = client();
    let build = RequestBuilder::new();
    let date = oss.date(1700000000);
    let (url, headers) = oss.build_request("/hello.txt", &date, &build);
    assert_eq!(url, "http://b.oss-cn-test.example.com/hello.txt");
    assert_eq!(headers.len(), 2);
    assert_eq!(headers[0].0, "Date");
    assert_eq!(headers[0].1, date);
    assert_eq!(headers[1].0, "Authorization");
    assert!(headers[1].1.starts_with("OSS AK:"));
}

#[test]
fn build_request_emits_content_type_only_when_given() {
    let oss = client();
    let build = RequestBuilder::new().with_content_type("text/plain");
    let date = oss.date(1700000000);
    let (_url, headers) = oss.build_request("/hello.txt", &date, &build);
    assert_eq!(headers.len(), 3);
    assert_eq!(headers[1].0, "Content-Type");
    assert_eq!(headers[1].1, "text/plain");
}

#[test]
fn signing_is_deterministic() {
    let oss = client();
    let build = RequestBuilder::new()
        .with_expire(60)
        .with_parameter("response-content-type", "text/plain");
    let one = oss.sign_url("/hello.txt", &build, 1700000000);
    let two = oss.sign_url("/hello.txt", &build, 1700000000);
    assert_eq!(one, two);
    let date = oss.date(1700000000);
    let (url_a, headers_a) = oss.build_request("/hello.txt", &date, &build);
    let (url_b, headers_b) = oss.build_request("/hello.txt", &date, &build);
    assert_eq!(url_a, url_b);
    assert_eq!(headers_a, headers_b);
}

#[test]
fn format_key_normalizes_once() {
    let oss = client();
    assert_eq!(oss.format_key("a/b.txt"), "/a/b.txt");
    assert_eq!(oss.format_key("/a/b.txt"), "/a/b.txt");
    let once = oss.format_key("a/b.txt");
    assert_eq!(oss.format_key(&once), once);
    assert_eq!(oss.format_key(""), "/");
}

#[test]
fn resource_string_keeps_empty_bucket_degenerate() {
    let oss = client();
    assert_eq!(oss.format_oss_resource_str("", "/k"), "/");
    assert_eq!(oss.format_oss_resource_str("b", "/k"), "/b/k");
}

#[test]
fn key_urlencode_encodes_segments_not_separators() {
    let oss = client();
    assert_eq!(oss.key_urlencode("/a/b c.txt"), "/a/b%20c.txt");
    assert_eq!(oss.key_urlencode("/a+b/c?d"), "/a%2Bb/c%3Fd");
}
