//! The compute halves of the fetch cycle, and the policy delegation: the
//! verified assembly of the transport-native outgoing request, of the
//! transport-native response parts, and the calls that hand both to the
//! freshness-policy engine. The network round-trip itself is the caller's
//! I/O step between the two halves.

use vstd::prelude::*;
use vstd::multiset::Multiset;
use crate::adapter::RequestAdapter;
use crate::err::AdapterError;
use crate::headers::{header_name_ok, header_value_ok, headers_wf, HeaderField};
use crate::outside::{
    assemble_request_parts, assemble_response_parts, hm_append, hm_entries, new_header_map,
    parse_absolute_url, policy_new, policy_new_options, system_now, uri_ok, url_normalized,
    version_to_http,
};
use crate::response::NormalizedResponse;
use crate::text::lower_bytes;
use vstd::string::StrSliceExecFns;

verus! {

broadcast use vstd::multiset::group_multiset_axioms;

/// The transport-native outgoing request one fetch submits: the request
/// parts carrying method, resolved URL, version and every live header in
/// order, beside the body bytes and the resolved URL kept for the
/// normalized response.
pub struct OutgoingRequest {
    /// The transport-native request head.
    pub parts: http::request::Parts,
    /// The body bytes to attach.
    pub body: Vec<u8>,
    /// The resolved URL, kept for the normalized response.
    pub url: String,
}

/// A normalized response header that is legal on the wire again: its
/// name and value bytes pass the transport's checks.
pub open spec fn resp_header_wire_ok(h: crate::response::NormalizedHeader) -> bool {
    &&& header_name_ok(vstd::utf8::encode_utf8(h.name@))
    &&& header_value_ok(vstd::utf8::encode_utf8(h.value@))
}

/// The multiset of name/value byte pairs a header list holds.
pub open spec fn pairs_multiset(hs: Seq<(Seq<u8>, Seq<u8>)>) -> Multiset<(Seq<u8>, Seq<u8>)>
    decreases hs.len(),
{
    if hs.len() == 0 {
        Multiset::empty()
    } else {
        pairs_multiset(hs.drop_last()).insert(hs.last())
    }
}

/// The byte pair a normalized header puts on the wire: the name
/// lower-cased, as the transport's name table writes it.
pub open spec fn wire_pair(h: crate::response::NormalizedHeader) -> (Seq<u8>, Seq<u8>) {
    (lower_bytes(vstd::utf8::encode_utf8(h.name@)), vstd::utf8::encode_utf8(h.value@))
}

/// The multiset of byte pairs a normalized header list puts on the wire.
pub open spec fn wire_pairs(hs: Seq<crate::response::NormalizedHeader>) -> Multiset<
    (Seq<u8>, Seq<u8>),
>
    decreases hs.len(),
{
    if hs.len() == 0 {
        Multiset::empty()
    } else {
        wire_pairs(hs.drop_last()).insert(wire_pair(hs.last()))
    }
}

/// The first fault a scan of normalized headers meets when they go back
/// on the wire, each name checked before its value.
pub open spec fn first_wire_flaw(hs: Seq<crate::response::NormalizedHeader>) -> Option<
    AdapterError,
>
    decreases hs.len(),
{
    if hs.len() == 0 {
        None
    } else if !header_name_ok(vstd::utf8::encode_utf8(hs[0].name@)) {
        Some(AdapterError::InvalidHeaderName)
    } else if !header_value_ok(vstd::utf8::encode_utf8(hs[0].value@)) {
        Some(AdapterError::InvalidHeaderValue)
    } else {
        first_wire_flaw(hs.drop_first())
    }
}

/// Fills a transport header table with a well-formed header list,
/// keeping order and duplicates.
fn build_header_map(hs: &Vec<HeaderField>) -> (r: Result<http::HeaderMap, AdapterError>)
    requires
        headers_wf(hs@),
    ensures
        hs@.len() < 4096 ==> r is Ok,
        r matches Ok(m) ==> hm_entries(m) == pairs_multiset(crate::headers::header_views(hs@)),
        r matches Err(e) ==> e == AdapterError::HeaderCapacity,
{
    let ghost views = crate::headers::header_views(hs@);
    proof {
        assert(views.take(0) =~= Seq::<(Seq<u8>, Seq<u8>)>::empty());
    }
    let mut m = new_header_map();
    let mut i: usize = 0;
    while i < hs.len()
        invariant
            i <= hs@.len(),
            headers_wf(hs@),
            views == crate::headers::header_views(hs@),
            hm_entries(m).len() == i,
            hm_entries(m) == pairs_multiset(views.take(i as int)),
        decreases hs@.len() - i,
    {
        proof {
            assert(crate::headers::field_wf(hs@[i as int]));
            crate::text::lemma_lower_identity(hs@[i as int].name@);
        }
        match hm_append(&mut m, &hs[i].name, &hs[i].value) {
            Ok(_) => {},
            Err(e) => {
                proof {
                    assert(header_name_ok(hs@[i as int].name@));
                    assert(header_value_ok(hs@[i as int].value@));
                    assert(e == AdapterError::HeaderCapacity);
                }
                return Err(AdapterError::HeaderCapacity);
            },
        }
        i += 1;
        proof {
            assert(views.take(i as int).drop_last() =~= views.take(i - 1));
            assert(views.take(i as int).last() == hs@[i - 1]@);
        }
    }
    proof {
        assert(views.take(hs@.len() as int) =~= views);
    }
    Ok(m)
}

impl RequestAdapter {
    /// Assembles the transport-native request head from the live request:
    /// the resolved URL, the method, the version, and every header in
    /// order. Returns the head with the resolved URL.
    fn build_request_parts(&self) -> (r: Result<(http::request::Parts, String), AdapterError>)
        requires
            self.wf(),
        ensures
            r is Ok ==> (url_normalized(self.uri@) matches Some(n) && uri_ok(n)),
            self.headers@.len() < 4096 ==> ((r is Ok) <==> (url_normalized(self.uri@) matches Some(
                n,
            ) && uri_ok(n))),
            r matches Ok(o) ==> Some(o.1@) == url_normalized(self.uri@),
            r matches Ok(o) ==> crate::outside::req_parts_entries(o.0) == pairs_multiset(
                crate::headers::header_views(self.headers@),
            ),
            r matches Ok(o) ==> crate::outside::req_parts_method(o.0) == self.method@,
            r matches Ok(o) ==> crate::outside::req_parts_version(o.0) == Some(self.version),
            (url_normalized(self.uri@) is None) == (r matches Err(e) && e
                == AdapterError::UrlParse),
            self.headers@.len() < 4096 ==> ((r matches Err(e) && e == AdapterError::RequestBuild)
                <==> (url_normalized(self.uri@) matches Some(n) && !uri_ok(n))),
            r matches Err(e) ==> (e == AdapterError::UrlParse || e == AdapterError::RequestBuild
                || e == AdapterError::HeaderCapacity),
    {
        let url = match parse_absolute_url(self.uri.as_str()) {
            Ok(u) => u,
            Err(_) => return Err(AdapterError::UrlParse),
        };
        let m = match build_header_map(&self.headers) {
            Ok(m) => m,
            Err(e) => return Err(e),
        };
        let hv = version_to_http(self.version);
        match assemble_request_parts(&self.method, url.as_str(), hv, m) {
            Ok(p) => Ok((p, url)),
            Err(e) => Err(e),
        }
    }

    /// Builds the outgoing transport request for one fetch: method, URL
    /// and version are reused, every live header is carried over in order
    /// with duplicates kept, and the body bytes are attached unchanged.
    pub fn outgoing(&self) -> (r: Result<OutgoingRequest, AdapterError>)
        requires
            self.wf(),
        ensures
            r is Ok ==> (url_normalized(self.uri@) matches Some(n) && uri_ok(n)),
            self.headers@.len() < 4096 ==> ((r is Ok) <==> (url_normalized(self.uri@) matches Some(
                n,
            ) && uri_ok(n))),
            r matches Ok(o) ==> Some(o.url@) == url_normalized(self.uri@) && o.body@ == self.body@,
            r matches Ok(o) ==> crate::outside::req_parts_entries(o.parts) == pairs_multiset(
                crate::headers::header_views(self.headers@),
            ),
            r matches Ok(o) ==> crate::outside::req_parts_method(o.parts) == self.method@,
            r matches Ok(o) ==> crate::outside::req_parts_version(o.parts) == Some(self.version),
            (url_normalized(self.uri@) is None) == (r matches Err(e) && e
                == AdapterError::UrlParse),
            self.headers@.len() < 4096 ==> ((r matches Err(e) && e == AdapterError::RequestBuild)
                <==> (url_normalized(self.uri@) matches Some(n) && !uri_ok(n))),
            r matches Err(e) ==> (e == AdapterError::UrlParse || e == AdapterError::RequestBuild
                || e == AdapterError::HeaderCapacity),
    {
        match self.build_request_parts() {
            Ok((parts, url)) => Ok(
                OutgoingRequest { parts, body: crate::headers::copy_bytes(&self.body), url },
            ),
            Err(e) => Err(e),
        }
    }

    /// Assembles the transport-native response head from a normalized
    /// response.
    fn build_response_parts(&self, response: &NormalizedResponse) -> (r: Result<
        http::response::Parts,
        AdapterError,
    >)
        ensures
            r is Ok ==> (100 <= response.status < 1000),
            response.headers@.len() < 4096 ==> ((r is Ok) <==> (100 <= response.status < 1000
                && (forall|k: int|
                    0 <= k < response.headers@.len() ==> resp_header_wire_ok(
                        #[trigger] response.headers@[k],
                    )))),
            r matches Ok(p) ==> crate::outside::resp_parts_entries(p) == wire_pairs(
                response.headers@,
            ),
            r matches Ok(p) ==> crate::outside::resp_parts_status(p) == response.status,
            r matches Ok(p) ==> crate::outside::resp_parts_version(p) == Some(response.version),
            response.headers@.len() < 4096 ==> (r matches Err(e) ==> (
            match first_wire_flaw(response.headers@) {
                Some(f) => e == f,
                None => e == AdapterError::ResponseBuild,
            })),
            r matches Err(e) ==> (e == AdapterError::InvalidHeaderName || e
                == AdapterError::InvalidHeaderValue || e == AdapterError::HeaderCapacity || e
                == AdapterError::ResponseBuild),
    {
        let ghost hs = response.headers@;
        proof {
            assert(hs.skip(0) =~= hs);
            assert(hs.take(0) =~= Seq::<crate::response::NormalizedHeader>::empty());
        }
        let mut m = new_header_map();
        let mut i: usize = 0;
        while i < response.headers.len()
            invariant
                i <= response.headers@.len(),
                hs == response.headers@,
                hm_entries(m).len() == i,
                hm_entries(m) == wire_pairs(hs.take(i as int)),
                first_wire_flaw(hs) == first_wire_flaw(hs.skip(i as int)),
                forall|k: int|
                    0 <= k < i ==> resp_header_wire_ok(#[trigger] response.headers@[k]),
            decreases response.headers@.len() - i,
        {
            proof {
                assert(hs.skip(i as int)[0] == hs[i as int]);
                assert(hs.skip(i as int).drop_first() =~= hs.skip(i as int + 1));
            }
            let nb = response.headers[i].name.as_str().as_bytes_vec();
            let vb = response.headers[i].value.as_str().as_bytes_vec();
            match hm_append(&mut m, &nb, &vb) {
                Ok(_) => {},
                Err(e) => {
                    proof {
                        if e == AdapterError::InvalidHeaderName {
                            assert(first_wire_flaw(hs.skip(i as int)) == Some(
                                AdapterError::InvalidHeaderName,
                            ));
                        } else if e == AdapterError::InvalidHeaderValue {
                            assert(first_wire_flaw(hs.skip(i as int)) == Some(
                                AdapterError::InvalidHeaderValue,
                            ));
                        }
                    }
                    return Err(e);
                },
            }
            proof {
                assert(resp_header_wire_ok(response.headers@[i as int]));
            }
            i += 1;
            proof {
                assert(hs.take(i as int).drop_last() =~= hs.take(i - 1));
                assert(hs.take(i as int).last() == hs[i - 1]);
            }
        }
        proof {
            assert(hs.take(hs.len() as int) =~= hs);
            assert(hs.skip(hs.len() as int) =~= Seq::<crate::response::NormalizedHeader>::empty());
        }
        assemble_response_parts(response.status, version_to_http(response.version), m)
    }

    /// Builds a cache policy for the current request view and the given
    /// response, under the engine's default options and the ambient
    /// wall-clock time. The policy value is the freshness engine's; the
    /// adapter only assembles its inputs and hands it back. Fails exactly
    /// when the request target, the status code or a response header
    /// cannot be normalized, never on the method: policy computation is
    /// method-agnostic.
    pub fn compute_policy(&self, response: &NormalizedResponse) -> (r: Result<
        http_cache_semantics::CachePolicy,
        AdapterError,
    >)
        requires
            self.wf(),
        ensures
            r is Ok ==> ((url_normalized(self.uri@) matches Some(n) && uri_ok(n)) && 100
                <= response.status < 1000),
            self.headers@.len() < 4096 && response.headers@.len() < 4096 ==> ((r is Ok) <==> ((
            url_normalized(self.uri@) matches Some(n) && uri_ok(n)) && 100 <= response.status
                < 1000 && (forall|k: int|
                0 <= k < response.headers@.len() ==> resp_header_wire_ok(
                    #[trigger] response.headers@[k],
                )))),
            (url_normalized(self.uri@) is None) == (r matches Err(e) && e
                == AdapterError::UrlParse),
            self.headers@.len() < 4096 && response.headers@.len() < 4096 ==> (r matches Err(e)
                ==> (match url_normalized(self.uri@) {
                None => e == AdapterError::UrlParse,
                Some(n) => if !uri_ok(n) {
                    e == AdapterError::RequestBuild
                } else {
                    match first_wire_flaw(response.headers@) {
                        Some(f) => e == f,
                        None => e == AdapterError::ResponseBuild,
                    }
                },
            })),
            r matches Err(e) ==> (e == AdapterError::UrlParse || e == AdapterError::RequestBuild
                || e == AdapterError::HeaderCapacity || e == AdapterError::InvalidHeaderName || e
                == AdapterError::InvalidHeaderValue || e == AdapterError::ResponseBuild),
    {
        let (req_parts, _url) = match self.build_request_parts() {
            Ok(o) => o,
            Err(e) => return Err(e),
        };
        let resp_parts = match self.build_response_parts(response) {
            Ok(p) => p,
            Err(e) => return Err(e),
        };
        Ok(policy_new(&req_parts, &resp_parts))
    }

    /// Builds a cache policy as `compute_policy` does, but under explicit
    /// options and the current time, instead of the engine's defaults.
    pub fn compute_policy_with_options(
        &self,
        response: &NormalizedResponse,
        options: http_cache_semantics::CacheOptions,
    ) -> (r: Result<http_cache_semantics::CachePolicy, AdapterError>)
        requires
            self.wf(),
        ensures
            r is Ok ==> ((url_normalized(self.uri@) matches Some(n) && uri_ok(n)) && 100
                <= response.status < 1000),
            self.headers@.len() < 4096 && response.headers@.len() < 4096 ==> ((r is Ok) <==> ((
            url_normalized(self.uri@) matches Some(n) && uri_ok(n)) && 100 <= response.status
                < 1000 && (forall|k: int|
                0 <= k < response.headers@.len() ==> resp_header_wire_ok(
                    #[trigger] response.headers@[k],
                )))),
            (url_normalized(self.uri@) is None) == (r matches Err(e) && e
                == AdapterError::UrlParse),
            self.headers@.len() < 4096 && response.headers@.len() < 4096 ==> (r matches Err(e)
                ==> (match url_normalized(self.uri@) {
                None => e == AdapterError::UrlParse,
                Some(n) => if !uri_ok(n) {
                    e == AdapterError::RequestBuild
                } else {
                    match first_wire_flaw(response.headers@) {
                        Some(f) => e == f,
                        None => e == AdapterError::ResponseBuild,
                    }
                },
            })),
            r matches Err(e) ==> (e == AdapterError::UrlParse || e == AdapterError::RequestBuild
                || e == AdapterError::HeaderCapacity || e == AdapterError::InvalidHeaderName || e
                == AdapterError::InvalidHeaderValue || e == AdapterError::ResponseBuild),
    {
        let (req_parts, _url) = match self.build_request_parts() {
            Ok(o) => o,
            Err(e) => return Err(e),
        };
        let resp_parts = match self.build_response_parts(response) {
            Ok(p) => p,
            Err(e) => return Err(e),
        };
        let now = system_now();
        Ok(policy_new_options(&req_parts, &resp_parts, now, options))
    }
}

} // verus!
