//! The live request owned by the transport adapter, and the operations a
//! cache-decision engine drives it with: method inspection, header
//! snapshots, header merging, forced revalidation and URL resolution.

use vstd::prelude::*;
use crate::err::AdapterError;
use crate::headers::{
    apply_fields, apply_headers, bytes_eq, canon_views, check_header_name, check_header_value,
    check_method_token, copy_bytes, copy_headers, header_name_ok, header_value_ok, header_views,
    headers_wf, insert_field, insert_header, lemma_insert_values, method_token_ok, values_of,
    HeaderField,
};
use crate::outside::{parse_absolute_url, url_normalized};
use crate::text::{chars_of, lower_bytes, to_lower_bytes, to_upper_bytes, upper_bytes};
use crate::version::HttpVersion;

verus! {

/// The GET method token.
pub open spec fn get_token() -> Seq<u8> {
    seq![71u8, 69u8, 84u8]
}

/// The HEAD method token.
pub open spec fn head_token() -> Seq<u8> {
    seq![72u8, 69u8, 65u8, 68u8]
}

/// The canonical cache-control header name.
pub open spec fn cache_control_name() -> Seq<u8> {
    seq![99u8, 97u8, 99u8, 104u8, 101u8, 45u8, 99u8, 111u8, 110u8, 116u8, 114u8, 111u8, 108u8]
}

/// The no-cache directive value.
pub open spec fn no_cache_value() -> Seq<u8> {
    seq![110u8, 111u8, 45u8, 99u8, 97u8, 99u8, 104u8, 101u8]
}

/// Builds the cache-control header name.
pub fn cache_control_bytes() -> (r: Vec<u8>)
    ensures
        r@ == cache_control_name(),
{
    let mut v: Vec<u8> = Vec::new();
    v.push(99);
    v.push(97);
    v.push(99);
    v.push(104);
    v.push(101);
    v.push(45);
    v.push(99);
    v.push(111);
    v.push(110);
    v.push(116);
    v.push(114);
    v.push(111);
    v.push(108);
    proof {
        assert(v@ =~= cache_control_name());
    }
    v
}

/// Builds the no-cache directive value.
pub fn no_cache_bytes() -> (r: Vec<u8>)
    ensures
        r@ == no_cache_value(),
{
    let mut v: Vec<u8> = Vec::new();
    v.push(110);
    v.push(111);
    v.push(45);
    v.push(99);
    v.push(97);
    v.push(99);
    v.push(104);
    v.push(101);
    proof {
        assert(v@ =~= no_cache_value());
    }
    v
}

/// The normalized, read-only view of a live request: recomputed on demand,
/// never cached, and always without a body.
pub struct RequestSnapshot {
    /// The method token.
    pub method: Vec<u8>,
    /// The resolved absolute URL, in its normalized serialization.
    pub url: String,
    /// The protocol version.
    pub version: HttpVersion,
    /// The headers, in the live request's order, duplicates kept.
    pub headers: Vec<HeaderField>,
}

/// The live request a transport adapter owns for the length of one
/// cache-aware call.
pub struct RequestAdapter {
    /// The method token.
    pub method: Vec<u8>,
    /// The request target, as given.
    pub uri: String,
    /// The protocol version.
    pub version: HttpVersion,
    /// The headers, order-preserving, duplicates kept, names canonical.
    pub headers: Vec<HeaderField>,
    /// The body bytes.
    pub body: Vec<u8>,
}

impl RequestAdapter {
    /// Well-formedness: a legal method token and legal, canonical headers.
    pub open spec fn wf(&self) -> bool {
        &&& method_token_ok(self.method@)
        &&& headers_wf(self.headers@)
    }

    /// Builds a live request, validating the method and every header and
    /// putting header names in canonical form.
    pub fn new(
        method: Vec<u8>,
        uri: String,
        version: HttpVersion,
        headers: Vec<HeaderField>,
        body: Vec<u8>,
    ) -> (r: Result<RequestAdapter, AdapterError>)
        ensures
            (r is Ok) <==> (method_token_ok(method@) && (forall|i: int|
                0 <= i < headers@.len() ==> header_name_ok((#[trigger] headers@[i])@.0)
                    && header_value_ok(headers@[i]@.1))),
            r matches Ok(a) ==> ({
                &&& a.wf()
                &&& a.method@ == method@
                &&& a.uri@ == uri@
                &&& a.version == version
                &&& header_views(a.headers@) == canon_views(headers@)
                &&& a.body@ == body@
            }),
            r matches Err(e) ==> (e == AdapterError::InvalidMethod || e
                == AdapterError::InvalidHeaderName || e == AdapterError::InvalidHeaderValue),
    {
        if !check_method_token(&method) {
            return Err(AdapterError::InvalidMethod);
        }
        let mut canon: Vec<HeaderField> = Vec::new();
        let mut i: usize = 0;
        while i < headers.len()
            invariant
                i <= headers.len(),
                canon@.len() == i,
                forall|j: int|
                    0 <= j < i ==> header_name_ok((#[trigger] headers@[j])@.0) && header_value_ok(
                        headers@[j]@.1,
                    ),
                forall|j: int|
                    0 <= j < i ==> (#[trigger] canon@[j])@ == (
                        lower_bytes(headers@[j]@.0),
                        headers@[j]@.1,
                    ),
                headers_wf(canon@),
            decreases headers.len() - i,
        {
            if !check_header_name(&headers[i].name) {
                proof {
                    assert(!header_name_ok(headers@[i as int]@.0));
                }
                return Err(AdapterError::InvalidHeaderName);
            }
            if !check_header_value(&headers[i].value) {
                proof {
                    assert(!header_value_ok(headers@[i as int]@.1));
                }
                return Err(AdapterError::InvalidHeaderValue);
            }
            let lower = to_lower_bytes(&headers[i].name);
            proof {
                crate::headers::lemma_lower_name_ok(headers@[i as int]@.0);
            }
            let value = copy_bytes(&headers[i].value);
            canon.push(HeaderField { name: lower, value });
            i += 1;
        }
        proof {
            assert(header_views(canon@) =~= canon_views(headers@));
        }
        Ok(RequestAdapter { method, uri, version, headers: canon, body })
    }

    /// True exactly of the safe, read-only methods the cache may serve:
    /// GET and HEAD. Every other method is never cache-eligible.
    pub fn is_cacheable_method(&self) -> (r: bool)
        ensures
            r == (self.method@ == get_token() || self.method@ == head_token()),
    {
        let mut get: Vec<u8> = Vec::new();
        get.push(71);
        get.push(69);
        get.push(84);
        let mut head: Vec<u8> = Vec::new();
        head.push(72);
        head.push(69);
        head.push(65);
        head.push(68);
        proof {
            assert(get@ =~= get_token());
            assert(head@ =~= head_token());
        }
        bytes_eq(&self.method, &get) || bytes_eq(&self.method, &head)
    }

    /// The method token as an upper-case string.
    pub fn method_name(&self) -> (r: String)
        requires
            self.wf(),
        ensures
            r@ == chars_of(upper_bytes(self.method@)),
    {
        let upper = to_upper_bytes(&self.method);
        proof {
            assert forall|i: int| 0 <= i < upper@.len() implies upper@[i] < 128 by {
                assert(upper@[i] == crate::text::upper_byte(self.method@[i]));
                assert(crate::headers::is_method_byte(self.method@[i]));
            }
        }
        crate::outside::ascii_string(&upper)
    }

    /// Parses the request target as an absolute URL and returns its
    /// normalized serialization; a target that is no absolute URL is a
    /// parse error.
    pub fn resolved_url(&self) -> (r: Result<String, AdapterError>)
        ensures
            (r is Ok) == (url_normalized(self.uri@) is Some),
            r matches Ok(t) ==> Some(t@) == url_normalized(self.uri@),
            r matches Err(e) ==> e == AdapterError::UrlParse,
    {
        parse_absolute_url(self.uri.as_str())
    }

    /// The normalized request view: the resolved URL, the method, the
    /// version, and exactly the live request's headers in their order,
    /// duplicates kept; the view carries no body.
    pub fn snapshot_request_parts(&self) -> (r: Result<RequestSnapshot, AdapterError>)
        ensures
            (r is Ok) == (url_normalized(self.uri@) is Some),
            r matches Ok(p) ==> ({
                &&& Some(p.url@) == url_normalized(self.uri@)
                &&& p.method@ == self.method@
                &&& p.version == self.version
                &&& header_views(p.headers@) == header_views(self.headers@)
            }),
            r matches Err(e) ==> e == AdapterError::UrlParse,
    {
        let url = match parse_absolute_url(self.uri.as_str()) {
            Ok(u) => u,
            Err(e) => return Err(e),
        };
        Ok(
            RequestSnapshot {
                method: copy_bytes(&self.method),
                url,
                version: self.version,
                headers: copy_headers(&self.headers),
            },
        )
    }

    /// Merges response-derived headers into the live request: each
    /// incoming header replaces whatever stood under its name, later
    /// entries of one name winning. Nothing changes unless every incoming
    /// header is legal.
    pub fn apply_response_headers(&mut self, incoming: &Vec<HeaderField>) -> (r: Result<
        (),
        AdapterError,
    >)
        requires
            old(self).wf(),
        ensures
            final(self).wf(),
            final(self).method@ == old(self).method@,
            final(self).uri@ == old(self).uri@,
            final(self).version == old(self).version,
            final(self).body@ == old(self).body@,
            (r is Ok) <==> (forall|i: int|
                0 <= i < incoming@.len() ==> header_name_ok((#[trigger] incoming@[i])@.0)
                    && header_value_ok(incoming@[i]@.1)),
            r is Ok ==> header_views(final(self).headers@) == apply_headers(
                header_views(old(self).headers@),
                canon_views(incoming@),
            ),
            r is Err ==> header_views(final(self).headers@) == header_views(old(self).headers@),
            r matches Err(e) ==> (e == AdapterError::InvalidHeaderName || e
                == AdapterError::InvalidHeaderValue),
    {
        match apply_fields(&self.headers, incoming) {
            Ok(next) => {
                self.headers = next;
                Ok(())
            },
            Err(e) => Err(e),
        }
    }

    /// Unconditionally sets the request's cache-control directive to
    /// no-cache, overwriting any prior value of that header.
    pub fn force_revalidation(&mut self)
        requires
            old(self).wf(),
        ensures
            final(self).wf(),
            final(self).method@ == old(self).method@,
            final(self).uri@ == old(self).uri@,
            final(self).version == old(self).version,
            final(self).body@ == old(self).body@,
            header_views(final(self).headers@) == insert_header(
                header_views(old(self).headers@),
                cache_control_name(),
                no_cache_value(),
            ),
    {
        let name = cache_control_bytes();
        let value = no_cache_bytes();
        proof {
            assert(crate::headers::canonical_name_ok(name@));
            assert(header_value_ok(value@));
        }
        let next = insert_field(&self.headers, &name, &value);
        self.headers = next;
    }
}

/// After a forced revalidation the header list holds exactly one value
/// under cache-control, and it is no-cache, whatever stood there before;
/// a snapshot taken right after therefore shows exactly that one header.
pub proof fn lemma_forced_revalidation_shows_no_cache(hs: Seq<(Seq<u8>, Seq<u8>)>)
    ensures
        values_of(insert_header(hs, cache_control_name(), no_cache_value()), cache_control_name())
            =~= seq![no_cache_value()],
{
    lemma_insert_values(hs, cache_control_name(), no_cache_value());
}

} // verus!
