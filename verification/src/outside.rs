//! The trusted boundary: declarations of the transport ecosystem's types
//! and thin wrappers around the calls the adapter's logic makes into them.
//! Everything else in the crate is verified against the contracts stated
//! here.

use vstd::prelude::*;
use vstd::multiset::Multiset;
use crate::err::AdapterError;
use crate::headers::{header_name_ok, header_value_ok, method_token_ok};
use crate::text::lower_bytes;
use crate::version::HttpVersion;

verus! {

#[verifier::external_type_specification]
#[verifier::external_body]
pub struct ExRequestParts(http::request::Parts);

#[verifier::external_type_specification]
#[verifier::external_body]
pub struct ExResponseParts(http::response::Parts);

#[verifier::external_type_specification]
#[verifier::external_body]
pub struct ExHeaderValue(http::header::HeaderValue);

#[verifier::external_type_specification]
#[verifier::external_body]
#[verifier::reject_recursive_types(T)]
pub struct ExHeaderMap<T>(http::HeaderMap<T>);

#[verifier::external_type_specification]
#[verifier::external_body]
pub struct ExHttpVersion(http::Version);

#[verifier::external_type_specification]
#[verifier::external_body]
pub struct ExCachePolicy(http_cache_semantics::CachePolicy);

#[verifier::external_type_specification]
#[verifier::external_body]
pub struct ExCacheOptions(http_cache_semantics::CacheOptions);

#[verifier::external_type_specification]
#[verifier::external_body]
pub struct ExSystemTime(std::time::SystemTime);

/// The headers held by a transport header table, as a multiset of
/// name/value byte-string pairs: the table groups values by name, so no
/// single order is promised.
pub uninterp spec fn hm_entries(m: http::HeaderMap) -> Multiset<(Seq<u8>, Seq<u8>)>;

/// Which of the adapter's versions a transport protocol version stands
/// for, when any: a function of the version value alone.
pub uninterp spec fn version_repr(v: http::Version) -> Option<HttpVersion>;

/// The headers an assembled request head carries, read as `hm_entries`
/// reads a header table.
pub uninterp spec fn req_parts_entries(p: http::request::Parts) -> Multiset<(Seq<u8>, Seq<u8>)>;

/// The method token an assembled request head carries.
pub uninterp spec fn req_parts_method(p: http::request::Parts) -> Seq<u8>;

/// The normalized reading of the version an assembled request head
/// carries.
pub uninterp spec fn req_parts_version(p: http::request::Parts) -> Option<HttpVersion>;

/// The headers an assembled response head carries, read as `hm_entries`
/// reads a header table.
pub uninterp spec fn resp_parts_entries(p: http::response::Parts) -> Multiset<(Seq<u8>, Seq<u8>)>;

/// The status code an assembled response head carries.
pub uninterp spec fn resp_parts_status(p: http::response::Parts) -> u16;

/// The normalized reading of the version an assembled response head
/// carries.
pub uninterp spec fn resp_parts_version(p: http::response::Parts) -> Option<HttpVersion>;

/// Whether a string parses as a transport request target.
pub uninterp spec fn uri_ok(s: Seq<char>) -> bool;

/// The serialization of a string parsed as an absolute URL, when it is
/// one.
pub uninterp spec fn url_normalized(s: Seq<char>) -> Option<Seq<char>>;

/// Relies on http::HeaderMap::new: a fresh table holds nothing.
#[verifier::external_body]
pub fn new_header_map() -> (m: http::HeaderMap)
    ensures
        hm_entries(m) == Multiset::<(Seq<u8>, Seq<u8>)>::empty(),
{
    http::HeaderMap::new()
}

/// Relies on http::header::HeaderName::from_bytes (accepts exactly the
/// non-empty names of legal bytes up to the transport's name-length cap,
/// lower-casing them), http::header::HeaderValue::from_bytes (accepts
/// exactly the values without forbidden controls), and
/// http::HeaderMap::try_append (appends the pair, keeping duplicates, and
/// fails only once the table has grown past thousands of entries: every
/// failing path of its growth arithmetic needs several thousand entries
/// first).
#[verifier::external_body]
pub fn hm_append(m: &mut http::HeaderMap, name: &Vec<u8>, value: &Vec<u8>) -> (r: Result<
    (),
    AdapterError,
>)
    ensures
        (r == Err::<(), AdapterError>(AdapterError::InvalidHeaderName)) == !header_name_ok(name@),
        (r == Err::<(), AdapterError>(AdapterError::InvalidHeaderValue)) == (header_name_ok(name@)
            && !header_value_ok(value@)),
        header_name_ok(name@) && header_value_ok(value@) && hm_entries(*old(m)).len() < 4096 ==> r
            is Ok,
        r is Ok ==> header_name_ok(name@) && header_value_ok(value@),
        r is Ok ==> hm_entries(*final(m)) == hm_entries(*old(m)).insert((lower_bytes(name@), value@)),
        r is Err ==> hm_entries(*final(m)) == hm_entries(*old(m)),
        r matches Err(e) ==> (e == AdapterError::InvalidHeaderName || e
            == AdapterError::InvalidHeaderValue || e == AdapterError::HeaderCapacity),
{
    let n = match http::header::HeaderName::from_bytes(name.as_slice()) {
        Ok(n) => n,
        Err(_) => return Err(AdapterError::InvalidHeaderName),
    };
    let v = match http::header::HeaderValue::from_bytes(value.as_slice()) {
        Ok(v) => v,
        Err(_) => return Err(AdapterError::InvalidHeaderValue),
    };
    match m.try_append(n, v) {
        Ok(_) => Ok(()),
        Err(_) => Err(AdapterError::HeaderCapacity),
    }
}

/// Relies on http::Method::from_bytes (accepts exactly the non-empty
/// tokens of legal method bytes, and keeps the bytes: the method table
/// maps every legal byte to itself) and http::Request::builder with
/// method, uri and version: the builder's body call returns the request
/// exactly when every stage parsed, the uri stage accepts exactly the
/// strings the transport's target grammar accepts, and the head keeps the
/// version value and the header table it is given verbatim.
#[verifier::external_body]
pub fn assemble_request_parts(
    method: &Vec<u8>,
    uri: &str,
    version: http::Version,
    headers: http::HeaderMap,
) -> (r: Result<http::request::Parts, AdapterError>)
    ensures
        (r is Ok) == (method_token_ok(method@) && uri_ok(uri@)),
        (r matches Err(e) && e == AdapterError::InvalidMethod) == !method_token_ok(method@),
        (r matches Err(e) && e == AdapterError::RequestBuild) == (method_token_ok(method@)
            && !uri_ok(uri@)),
        r matches Err(e) ==> (e == AdapterError::InvalidMethod || e == AdapterError::RequestBuild),
        r matches Ok(p) ==> req_parts_entries(p) == hm_entries(headers),
        r matches Ok(p) ==> req_parts_method(p) == method@,
        r matches Ok(p) ==> req_parts_version(p) == version_repr(version),
{
    let m = match http::Method::from_bytes(method.as_slice()) {
        Ok(m) => m,
        Err(_) => return Err(AdapterError::InvalidMethod),
    };
    let req = match http::Request::builder().method(m).uri(uri).version(version).body(()) {
        Ok(r) => r,
        Err(_) => return Err(AdapterError::RequestBuild),
    };
    let (mut parts, _) = req.into_parts();
    parts.headers = headers;
    Ok(parts)
}

/// Relies on http::Response::builder with status and version: the status
/// stage accepts exactly the codes from 100 to 999 and keeps the code's
/// value, and the head keeps the version value and the header table it
/// is given verbatim.
#[verifier::external_body]
pub fn assemble_response_parts(
    status: u16,
    version: http::Version,
    headers: http::HeaderMap,
) -> (r: Result<http::response::Parts, AdapterError>)
    ensures
        (r is Ok) == (100 <= status < 1000),
        r matches Err(e) ==> e == AdapterError::ResponseBuild,
        r matches Ok(p) ==> resp_parts_entries(p) == hm_entries(headers),
        r matches Ok(p) ==> resp_parts_status(p) == status,
        r matches Ok(p) ==> resp_parts_version(p) == version_repr(version),
{
    let resp = match http::Response::builder().status(status).version(version).body(()) {
        Ok(r) => r,
        Err(_) => return Err(AdapterError::ResponseBuild),
    };
    let (mut parts, _) = resp.into_parts();
    parts.headers = headers;
    Ok(parts)
}

/// Relies on url::Url::parse and url::Url::as_str: whether a string
/// parses, and what the parsed URL serializes back to, depend on the
/// string alone.
#[verifier::external_body]
pub fn parse_absolute_url(s: &str) -> (r: Result<String, AdapterError>)
    ensures
        (r is Ok) == (url_normalized(s@) is Some),
        r matches Ok(t) ==> Some(t@) == url_normalized(s@),
        r matches Err(e) ==> e == AdapterError::UrlParse,
{
    match url::Url::parse(s) {
        Ok(u) => Ok(u.as_str().to_owned()),
        Err(_) => Err(AdapterError::UrlParse),
    }
}

/// Relies on http_cache_semantics::CachePolicy::new, which reads the
/// ambient clock, so nothing is promised of the value.
#[verifier::external_body]
pub fn policy_new(
    req: &http::request::Parts,
    resp: &http::response::Parts,
) -> http_cache_semantics::CachePolicy {
    http_cache_semantics::CachePolicy::new(req, resp)
}

/// Relies on http_cache_semantics::CachePolicy::new_options; the policy
/// value is opaque to the adapter, so nothing is promised of it.
#[verifier::external_body]
pub fn policy_new_options(
    req: &http::request::Parts,
    resp: &http::response::Parts,
    now: std::time::SystemTime,
    opts: http_cache_semantics::CacheOptions,
) -> http_cache_semantics::CachePolicy {
    http_cache_semantics::CachePolicy::new_options(req, resp, now, opts)
}

/// Relies on std::time::SystemTime::now; nothing is promised of a clock
/// reading.
#[verifier::external_body]
pub fn system_now() -> std::time::SystemTime {
    std::time::SystemTime::now()
}

/// Relies on the http::Version constants, one per normalized version:
/// each constant reads back as the version it was made from.
#[verifier::external_body]
pub fn version_to_http(v: HttpVersion) -> (r: http::Version)
    ensures
        version_repr(r) == Some(v),
{
    match v {
        HttpVersion::Http09 => http::Version::HTTP_09,
        HttpVersion::Http10 => http::Version::HTTP_10,
        HttpVersion::Http11 => http::Version::HTTP_11,
        HttpVersion::H2 => http::Version::HTTP_2,
        HttpVersion::H3 => http::Version::HTTP_3,
    }
}

/// Relies on the http::Version constants: each known constant maps to its
/// normalized version, anything else to nothing; the reading is a
/// function of the version value alone.
#[verifier::external_body]
pub fn version_from_http(v: &http::Version) -> (r: Option<HttpVersion>)
    ensures
        r == version_repr(*v),
{
    if *v == http::Version::HTTP_09 {
        Some(HttpVersion::Http09)
    } else if *v == http::Version::HTTP_10 {
        Some(HttpVersion::Http10)
    } else if *v == http::Version::HTTP_11 {
        Some(HttpVersion::Http11)
    } else if *v == http::Version::HTTP_2 {
        Some(HttpVersion::H2)
    } else if *v == http::Version::HTTP_3 {
        Some(HttpVersion::H3)
    } else {
        None
    }
}

/// Relies on String::from_utf8: ASCII bytes decode to the string of the
/// characters with the same code points.
#[verifier::external_body]
pub fn ascii_string(bytes: &Vec<u8>) -> (r: String)
    requires
        forall|i: int| 0 <= i < bytes@.len() ==> bytes@[i] < 128,
    ensures
        r@ == crate::text::chars_of(bytes@),
{
    String::from_utf8(bytes.clone()).unwrap_or_default()
}

} // verus!
