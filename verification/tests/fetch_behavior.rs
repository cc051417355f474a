use http_cache_hyper::adapter::RequestAdapter;
use http_cache_hyper::err::AdapterError;
use http_cache_hyper::headers::HeaderField;
use http_cache_hyper::outside::{version_from_http, version_to_http};
use http_cache_hyper::response::{
    normalize_response, normalize_transport_response, NormalizedHeader, NormalizedResponse,
};
use http_cache_hyper::version::HttpVersion;

fn field(name: &str, value: &[u8]) -> HeaderField {
    HeaderField { name: name.as_bytes().to_vec(), value: value.to_vec() }
}

fn adapter(method: &str, headers: Vec<HeaderField>) -> RequestAdapter {
    RequestAdapter::new(
        method.as_bytes().to_vec(),
        String::from("https://example.com/data"),
        HttpVersion::Http11,
        headers,
        b"ping".to_vec(),
    )
    .unwrap()
}

fn plain_response(status: u16) -> NormalizedResponse {
    NormalizedResponse {
        body: b"hello".to_vec(),
        headers: vec![NormalizedHeader {
            name: String::from("content-type"),
            value: String::from("text/plain"),
        }],
        status,
        url: String::from("https://example.com/data"),
        version: HttpVersion::Http11,
    }
}

#[test]
fn outgoing_request_carries_headers_in_order() {
    let a = adapter(
        "GET",
        vec![field("X-A", b"1"), field("X-A", b"2"), field("Accept", b"text/plain")],
    );
    let out = a.outgoing().unwrap();
    assert_eq!(out.url, "https://example.com/data");
    assert_eq!(out.body, b"ping".to_vec());
    let got: Vec<(String, Vec<u8>)> = out
        .parts
        .headers
        .iter()
        .map(|(k, v)| (k.as_str().to_owned(), v.as_bytes().to_vec()))
        .collect();
    assert_eq!(
        got,
        vec![
            (String::from("x-a"), b"1".to_vec()),
            (String::from("x-a"), b"2".to_vec()),
            (String::from("accept"), b"text/plain".to_vec()),
        ]
    );
    assert_eq!(out.parts.method, http::Method::GET);
    assert_eq!(out.parts.version, http::Version::HTTP_11);
    assert_eq!(out.parts.uri.to_string(), "https://example.com/data");
}

#[test]
fn outgoing_rejects_an_unparseable_target() {
    let a = RequestAdapter::new(
        b"GET".to_vec(),
        String::from("no scheme here"),
        HttpVersion::Http11,
        vec![],
        Vec::new(),
    )
    .unwrap();
    assert_eq!(a.outgoing().err().unwrap(), AdapterError::UrlParse);
}

#[test]
fn normalization_keeps_the_last_value_per_name() {
    let raw = vec![
        field("Content-Type", b"text/plain"),
        field("X-Tag", b"one"),
        field("x-tag", b"two"),
    ];
    let r = normalize_response(
        200,
        Some(HttpVersion::Http11),
        &raw,
        b"hello".to_vec(),
        String::from("https://example.com/data"),
    )
    .unwrap();
    assert_eq!(r.status, 200);
    assert_eq!(r.body, b"hello".to_vec());
    assert_eq!(r.url, "https://example.com/data");
    assert_eq!(r.version, HttpVersion::Http11);
    assert_eq!(r.headers.len(), 2);
    assert_eq!(r.headers[0].name, "content-type");
    assert_eq!(r.headers[0].value, "text/plain");
    assert_eq!(r.headers[1].name, "x-tag");
    assert_eq!(r.headers[1].value, "two");
}

#[test]
fn normalization_fails_on_a_non_text_value() {
    let raw = vec![field("X-Bin", b"\xff\xfe")];
    let r = normalize_response(
        200,
        Some(HttpVersion::Http11),
        &raw,
        Vec::new(),
        String::from("https://example.com/"),
    );
    assert_eq!(r.err().unwrap(), AdapterError::HeaderDecode);
}

#[test]
fn normalization_fails_on_an_unknown_version() {
    let r = normalize_response(
        200,
        None,
        &vec![],
        Vec::new(),
        String::from("https://example.com/"),
    );
    assert_eq!(r.err().unwrap(), AdapterError::UnsupportedVersion);
}

#[test]
fn transport_normalization_converts_the_version() {
    let raw = vec![field("Content-Type", b"text/plain")];
    let r = normalize_transport_response(
        200,
        &http::Version::HTTP_2,
        &raw,
        b"hello".to_vec(),
        String::from("https://example.com/data"),
    )
    .unwrap();
    assert_eq!(r.version, HttpVersion::H2);
    assert_eq!(r.headers[0].name, "content-type");
}

#[test]
fn version_conversion_round_trips() {
    for v in [
        HttpVersion::Http09,
        HttpVersion::Http10,
        HttpVersion::Http11,
        HttpVersion::H2,
        HttpVersion::H3,
    ] {
        assert_eq!(version_from_http(&version_to_http(v)), Some(v));
    }
}

#[test]
fn policy_works_for_a_post_request_too() {
    let a = adapter("POST", vec![]);
    assert!(!a.is_cacheable_method());
    let p = a.compute_policy(&plain_response(200));
    assert!(p.is_ok());
}

#[test]
fn policy_with_options_uses_the_given_options() {
    let a = adapter("GET", vec![]);
    let opts = http_cache_semantics::CacheOptions { shared: false, ..Default::default() };
    let p = a.compute_policy_with_options(&plain_response(200), opts);
    assert!(p.is_ok());
}

#[test]
fn policy_rejects_an_unparseable_target() {
    let a = RequestAdapter::new(
        b"GET".to_vec(),
        String::from("no scheme here"),
        HttpVersion::Http11,
        vec![],
        Vec::new(),
    )
    .unwrap();
    let p = a.compute_policy(&plain_response(200));
    assert_eq!(p.err().unwrap(), AdapterError::UrlParse);
}

#[test]
fn policy_rejects_an_out_of_range_status() {
    let a = adapter("GET", vec![]);
    let p = a.compute_policy(&plain_response(99));
    assert_eq!(p.err().unwrap(), AdapterError::ResponseBuild);
}
