use http_cache_hyper::adapter::RequestAdapter;
use http_cache_hyper::err::AdapterError;
use http_cache_hyper::headers::HeaderField;
use http_cache_hyper::version::HttpVersion;

fn field(name: &str, value: &[u8]) -> HeaderField {
    HeaderField { name: name.as_bytes().to_vec(), value: value.to_vec() }
}

fn adapter(method: &str, headers: Vec<HeaderField>) -> RequestAdapter {
    RequestAdapter::new(
        method.as_bytes().to_vec(),
        String::from("https://example.com/data"),
        HttpVersion::Http11,
        headers,
        Vec::new(),
    )
    .unwrap()
}

#[test]
fn get_and_head_are_cacheable() {
    assert!(adapter("GET", vec![]).is_cacheable_method());
    assert!(adapter("HEAD", vec![]).is_cacheable_method());
}

#[test]
fn other_methods_are_not_cacheable() {
    for m in ["POST", "PUT", "DELETE", "PATCH", "OPTIONS", "TRACE", "get", "head"] {
        assert!(!adapter(m, vec![]).is_cacheable_method());
    }
}

#[test]
fn method_name_is_upper_case() {
    assert_eq!(adapter("GET", vec![]).method_name(), "GET");
    assert_eq!(adapter("patch", vec![]).method_name(), "PATCH");
}

#[test]
fn new_rejects_bad_method() {
    let r = RequestAdapter::new(
        b"".to_vec(),
        String::from("https://example.com/"),
        HttpVersion::Http11,
        vec![],
        Vec::new(),
    );
    assert_eq!(r.err().unwrap(), AdapterError::InvalidMethod);
    let r = RequestAdapter::new(
        b"GE T".to_vec(),
        String::from("https://example.com/"),
        HttpVersion::Http11,
        vec![],
        Vec::new(),
    );
    assert_eq!(r.err().unwrap(), AdapterError::InvalidMethod);
}

#[test]
fn new_rejects_bad_headers() {
    let r = RequestAdapter::new(
        b"GET".to_vec(),
        String::from("https://example.com/"),
        HttpVersion::Http11,
        vec![field("bad name", b"1")],
        Vec::new(),
    );
    assert_eq!(r.err().unwrap(), AdapterError::InvalidHeaderName);
    let r = RequestAdapter::new(
        b"GET".to_vec(),
        String::from("https://example.com/"),
        HttpVersion::Http11,
        vec![field("x-a", b"bad\nvalue")],
        Vec::new(),
    );
    assert_eq!(r.err().unwrap(), AdapterError::InvalidHeaderValue);
}

#[test]
fn snapshot_preserves_headers_order_and_duplicates() {
    let a = adapter(
        "GET",
        vec![field("X-A", b"1"), field("X-A", b"2"), field("Accept", b"text/plain")],
    );
    let p = a.snapshot_request_parts().unwrap();
    assert_eq!(p.method, b"GET".to_vec());
    assert_eq!(p.version, HttpVersion::Http11);
    assert_eq!(p.url, "https://example.com/data");
    assert_eq!(p.headers.len(), 3);
    assert_eq!(p.headers[0].name, b"x-a".to_vec());
    assert_eq!(p.headers[0].value, b"1".to_vec());
    assert_eq!(p.headers[1].name, b"x-a".to_vec());
    assert_eq!(p.headers[1].value, b"2".to_vec());
    assert_eq!(p.headers[2].name, b"accept".to_vec());
    assert_eq!(p.headers[2].value, b"text/plain".to_vec());
}

#[test]
fn snapshot_normalizes_the_url() {
    let a = RequestAdapter::new(
        b"GET".to_vec(),
        String::from("https://example.com"),
        HttpVersion::Http11,
        vec![],
        Vec::new(),
    )
    .unwrap();
    let p = a.snapshot_request_parts().unwrap();
    assert_eq!(p.url, "https://example.com/");
}

#[test]
fn resolved_url_rejects_a_relative_target() {
    let a = RequestAdapter::new(
        b"GET".to_vec(),
        String::from("/just/a/path"),
        HttpVersion::Http11,
        vec![],
        Vec::new(),
    )
    .unwrap();
    assert_eq!(a.resolved_url().err().unwrap(), AdapterError::UrlParse);
    assert_eq!(
        a.snapshot_request_parts().err().unwrap(),
        AdapterError::UrlParse
    );
}

#[test]
fn forced_revalidation_shows_exactly_one_no_cache() {
    let mut a = adapter(
        "GET",
        vec![
            field("Cache-Control", b"max-age=600"),
            field("cache-control", b"public"),
            field("Accept", b"text/plain"),
        ],
    );
    a.force_revalidation();
    let p = a.snapshot_request_parts().unwrap();
    let cc: Vec<&HeaderField> =
        p.headers.iter().filter(|f| f.name == b"cache-control".to_vec()).collect();
    assert_eq!(cc.len(), 1);
    assert_eq!(cc[0].value, b"no-cache".to_vec());
    // the other header is untouched, and the single entry keeps the
    // first occurrence's place
    assert_eq!(p.headers.len(), 2);
    assert_eq!(p.headers[0].name, b"cache-control".to_vec());
    assert_eq!(p.headers[1].name, b"accept".to_vec());
}

#[test]
fn forced_revalidation_without_prior_directive_appends_it() {
    let mut a = adapter("GET", vec![field("Accept", b"text/plain")]);
    a.force_revalidation();
    let p = a.snapshot_request_parts().unwrap();
    assert_eq!(p.headers.len(), 2);
    assert_eq!(p.headers[1].name, b"cache-control".to_vec());
    assert_eq!(p.headers[1].value, b"no-cache".to_vec());
}

#[test]
fn applying_a_header_twice_with_one_value_leaves_one_occurrence() {
    let mut a = adapter("GET", vec![field("X-A", b"1")]);
    a.apply_response_headers(&vec![field("X-A", b"9")]).unwrap();
    a.apply_response_headers(&vec![field("X-A", b"9")]).unwrap();
    let p = a.snapshot_request_parts().unwrap();
    assert_eq!(p.headers.len(), 1);
    assert_eq!(p.headers[0].name, b"x-a".to_vec());
    assert_eq!(p.headers[0].value, b"9".to_vec());
}

#[test]
fn applying_a_header_with_a_new_value_replaces_the_old() {
    let mut a = adapter("GET", vec![field("X-A", b"1"), field("Accept", b"*/*")]);
    a.apply_response_headers(&vec![field("x-a", b"2")]).unwrap();
    a.apply_response_headers(&vec![field("X-A", b"3")]).unwrap();
    let p = a.snapshot_request_parts().unwrap();
    assert_eq!(p.headers.len(), 2);
    assert_eq!(p.headers[0].name, b"x-a".to_vec());
    assert_eq!(p.headers[0].value, b"3".to_vec());
    assert_eq!(p.headers[1].name, b"accept".to_vec());
}

#[test]
fn applying_bad_headers_changes_nothing() {
    let mut a = adapter("GET", vec![field("X-A", b"1")]);
    let r = a.apply_response_headers(&vec![field("ok", b"2"), field("bad name", b"3")]);
    assert_eq!(r.err().unwrap(), AdapterError::InvalidHeaderName);
    let p = a.snapshot_request_parts().unwrap();
    assert_eq!(p.headers.len(), 1);
    assert_eq!(p.headers[0].value, b"1".to_vec());
}

#[test]
fn transport_errors_carry_their_cause() {
    let e = AdapterError::Transport(String::from("connection refused"));
    assert_eq!(e, AdapterError::Transport(String::from("connection refused")));
    assert_ne!(e, AdapterError::UrlParse);
}
