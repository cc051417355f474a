//! The normalized response a fetch produces, and the verified
//! normalization of raw transport headers into a single-valued,
//! last-value-wins text mapping.

use vstd::prelude::*;
use crate::err::AdapterError;
use crate::headers::{
    check_header_name, check_value_text, header_name_ok, header_views, value_text_ok, HeaderField,
};
use crate::text::{chars_of, lower_bytes, to_lower_bytes};
use crate::version::HttpVersion;

verus! {

/// One entry of the normalized response-header mapping.
pub struct NormalizedHeader {
    /// The header name, lower-cased.
    pub name: String,
    /// The header value, decoded as text.
    pub value: String,
}

impl View for NormalizedHeader {
    type V = (Seq<char>, Seq<char>);

    open spec fn view(&self) -> (Seq<char>, Seq<char>) {
        (self.name@, self.value@)
    }
}

/// The mathematical view of a normalized header list.
pub open spec fn normalized_views(hs: Seq<NormalizedHeader>) -> Seq<(Seq<char>, Seq<char>)> {
    hs.map_values(|h: NormalizedHeader| h@)
}

/// The value a fetch hands back to the caching engine.
pub struct NormalizedResponse {
    /// The response body, drained fully.
    pub body: Vec<u8>,
    /// The response headers: one value per name, the last one winning.
    pub headers: Vec<NormalizedHeader>,
    /// The status code.
    pub status: u16,
    /// The originally requested URL, in its normalized serialization.
    pub url: String,
    /// The protocol version.
    pub version: HttpVersion,
}

/// Every raw header has a legal name and a text value.
pub open spec fn all_raw_headers_ok(raw: Seq<(Seq<u8>, Seq<u8>)>) -> bool {
    forall|i: int|
        0 <= i < raw.len() ==> header_name_ok((#[trigger] raw[i]).0) && value_text_ok(raw[i].1)
}

/// No later raw header carries the same name, up to case.
pub open spec fn is_last_occurrence(raw: Seq<(Seq<u8>, Seq<u8>)>, i: int) -> bool {
    &&& 0 <= i < raw.len()
    &&& forall|j: int|
        i < j < raw.len() ==> lower_bytes((#[trigger] raw[j]).0) != lower_bytes(raw[i].0)
}

/// The normalized reading of one raw header: the lower-cased name and the
/// value, both as text.
pub open spec fn normal_entry(raw: Seq<(Seq<u8>, Seq<u8>)>, i: int) -> (Seq<char>, Seq<char>) {
    (chars_of(lower_bytes(raw[i].0)), chars_of(raw[i].1))
}

/// The normalized mapping the raw headers from position `k` on produce:
/// each name's last occurrence survives, in the order of those last
/// occurrences; every earlier occurrence is overridden.
pub open spec fn expected_entries(raw: Seq<(Seq<u8>, Seq<u8>)>, k: int) -> Seq<
    (Seq<char>, Seq<char>),
>
    decreases raw.len() - k,
{
    if k < 0 || k >= raw.len() {
        Seq::empty()
    } else if is_last_occurrence(raw, k) {
        seq![normal_entry(raw, k)] + expected_entries(raw, k + 1)
    } else {
        expected_entries(raw, k + 1)
    }
}

/// The first fault a scan of the raw headers meets, each name checked
/// before its value: an illegal name, or a value that is not text.
pub open spec fn first_header_flaw(raw: Seq<(Seq<u8>, Seq<u8>)>) -> Option<AdapterError>
    decreases raw.len(),
{
    if raw.len() == 0 {
        None
    } else if !header_name_ok(raw[0].0) {
        Some(AdapterError::InvalidHeaderName)
    } else if !value_text_ok(raw[0].1) {
        Some(AdapterError::HeaderDecode)
    } else {
        first_header_flaw(raw.drop_first())
    }
}

/// The scan meets no fault exactly when every raw header is legal.
pub proof fn lemma_no_flaw_iff_all_ok(raw: Seq<(Seq<u8>, Seq<u8>)>)
    ensures
        (first_header_flaw(raw) is None) <==> all_raw_headers_ok(raw),
    decreases raw.len(),
{
    if raw.len() > 0 {
        lemma_no_flaw_iff_all_ok(raw.drop_first());
        assert forall|i: int|
            0 <= i < raw.len() && all_raw_headers_ok(raw.drop_first()) && header_name_ok(raw[0].0)
                && value_text_ok(raw[0].1) implies header_name_ok((#[trigger] raw[i]).0)
            && value_text_ok(raw[i].1) by {
            if i > 0 {
                assert(raw.drop_first()[i - 1] == raw[i]);
            }
        }
        if all_raw_headers_ok(raw) {
            assert forall|i: int| 0 <= i < raw.drop_first().len() implies header_name_ok(
                (#[trigger] raw.drop_first()[i]).0,
            ) && value_text_ok(raw.drop_first()[i].1) by {
                assert(raw.drop_first()[i] == raw[i + 1]);
            }
        }
    }
}

/// Whether a later raw header carries the same name, up to case.
fn has_later_occurrence(raw: &Vec<HeaderField>, i: usize) -> (r: bool)
    requires
        i < raw@.len(),
    ensures
        r == !is_last_occurrence(header_views(raw@), i as int),
{
    let n = raw.len();
    let low = to_lower_bytes(&raw[i].name);
    let mut j: usize = i + 1;
    while j < n
        invariant
            i < j <= raw@.len(),
            n == raw@.len(),
            low@ == lower_bytes(header_views(raw@)[i as int].0),
            forall|j2: int|
                i < j2 < j ==> lower_bytes((#[trigger] header_views(raw@)[j2]).0) != lower_bytes(
                    header_views(raw@)[i as int].0,
                ),
        decreases raw@.len() - j,
    {
        let low_j = to_lower_bytes(&raw[j].name);
        if crate::headers::bytes_eq(&low_j, &low) {
            proof {
                assert(lower_bytes(header_views(raw@)[j as int].0) == lower_bytes(
                    header_views(raw@)[i as int].0,
                ));
            }
            return true;
        }
        j += 1;
    }
    false
}

/// Normalizes raw transport headers into the single-valued mapping: names
/// are lower-cased, values must decode as text, and of several values
/// under one name the last wins. A value that is not text fails the whole
/// normalization.
pub fn normalize_headers(raw: &Vec<HeaderField>) -> (r: Result<Vec<NormalizedHeader>, AdapterError>)
    ensures
        (r is Ok) <==> all_raw_headers_ok(header_views(raw@)),
        r matches Ok(out) ==> normalized_views(out@) == expected_entries(header_views(raw@), 0),
        r matches Err(e) ==> Some(e) == first_header_flaw(header_views(raw@)),
{
    let ghost rawv = header_views(raw@);
    proof {
        assert(rawv.skip(0) =~= rawv);
    }
    let mut i: usize = 0;
    while i < raw.len()
        invariant
            i <= raw@.len(),
            rawv == header_views(raw@),
            first_header_flaw(rawv) == first_header_flaw(rawv.skip(i as int)),
            forall|j: int|
                0 <= j < i ==> header_name_ok((#[trigger] rawv[j]).0) && value_text_ok(rawv[j].1),
        decreases raw@.len() - i,
    {
        proof {
            assert(rawv.skip(i as int)[0] == rawv[i as int]);
            assert(rawv.skip(i as int).drop_first() =~= rawv.skip(i as int + 1));
        }
        if !check_header_name(&raw[i].name) {
            proof {
                assert(!header_name_ok(rawv[i as int].0));
                assert(first_header_flaw(rawv.skip(i as int)) == Some(
                    AdapterError::InvalidHeaderName,
                ));
            }
            return Err(AdapterError::InvalidHeaderName);
        }
        if !check_value_text(&raw[i].value) {
            proof {
                assert(!value_text_ok(rawv[i as int].1));
                assert(first_header_flaw(rawv.skip(i as int)) == Some(AdapterError::HeaderDecode));
            }
            return Err(AdapterError::HeaderDecode);
        }
        proof {
            assert(header_name_ok(rawv[i as int].0) && value_text_ok(rawv[i as int].1));
        }
        i += 1;
    }
    let mut out: Vec<NormalizedHeader> = Vec::new();
    let mut k: usize = 0;
    while k < raw.len()
        invariant
            k <= raw@.len(),
            rawv == header_views(raw@),
            all_raw_headers_ok(rawv),
            expected_entries(rawv, 0) =~= normalized_views(out@) + expected_entries(
                rawv,
                k as int,
            ),
        decreases raw@.len() - k,
    {
        let ghost old_out = out@;
        if !has_later_occurrence(raw, k) {
            let low = to_lower_bytes(&raw[k].name);
            proof {
                assert(header_name_ok(rawv[k as int].0));
                assert forall|x: int| 0 <= x < low@.len() implies low@[x] < 128 by {
                    assert(low@[x] == crate::text::lower_byte(rawv[k as int].0[x]));
                    assert(crate::headers::is_name_byte(rawv[k as int].0[x]));
                }
                assert(value_text_ok(rawv[k as int].1));
                assert forall|x: int|
                    0 <= x < raw@[k as int].value@.len() implies raw@[k as int].value@[x] < 128 by {
                    assert(crate::headers::is_text_byte(rawv[k as int].1[x]));
                }
            }
            let name = crate::outside::ascii_string(&low);
            let value = crate::outside::ascii_string(&raw[k].value);
            out.push(NormalizedHeader { name, value });
            proof {
                assert(normalized_views(out@) =~= normalized_views(old_out).push(
                    normal_entry(rawv, k as int),
                ));
                assert(expected_entries(rawv, k as int) =~= seq![normal_entry(rawv, k as int)]
                    + expected_entries(rawv, k as int + 1));
                assert(normalized_views(old_out) + expected_entries(rawv, k as int)
                    =~= normalized_views(out@) + expected_entries(rawv, k as int + 1));
            }
        } else {
            proof {
                assert(expected_entries(rawv, k as int) =~= expected_entries(rawv, k as int + 1));
            }
        }
        k += 1;
    }
    proof {
        assert(expected_entries(rawv, raw@.len() as int) =~= Seq::<(Seq<char>, Seq<char>)>::empty());
        assert(normalized_views(out@) + Seq::<(Seq<char>, Seq<char>)>::empty() =~= normalized_views(
            out@,
        ));
        assert(normalized_views(out@) =~= expected_entries(rawv, 0));
    }
    Ok(out)
}

/// Builds the normalized response from the plain readings of a transport
/// response: the status, the converted protocol version (nothing, when
/// the transport's version has no normalized representation), the raw
/// headers, the drained body, and the originally requested URL. Nothing
/// partial is produced: an unrepresentable version or a non-text header
/// value fails the whole call.
pub fn normalize_response(
    status: u16,
    version: Option<HttpVersion>,
    raw_headers: &Vec<HeaderField>,
    body: Vec<u8>,
    url: String,
) -> (r: Result<NormalizedResponse, AdapterError>)
    ensures
        (r is Ok) <==> (version is Some && all_raw_headers_ok(header_views(raw_headers@))),
        r matches Ok(resp) ==> ({
            &&& resp.status == status
            &&& Some(resp.version) == version
            &&& resp.body@ == body@
            &&& resp.url@ == url@
            &&& normalized_views(resp.headers@) == expected_entries(header_views(raw_headers@), 0)
        }),
        r matches Err(e) ==> (match first_header_flaw(header_views(raw_headers@)) {
            Some(f) => e == f,
            None => e == AdapterError::UnsupportedVersion,
        }),
{
    proof {
        lemma_no_flaw_iff_all_ok(header_views(raw_headers@));
    }
    let headers = match normalize_headers(raw_headers) {
        Ok(h) => h,
        Err(e) => return Err(e),
    };
    let v = match version {
        Some(v) => v,
        None => return Err(AdapterError::UnsupportedVersion),
    };
    Ok(NormalizedResponse { body, headers, status, url, version: v })
}

/// Normalizes a response straight off the transport: the version is
/// first read from the transport's own representation, and the rest
/// behaves as `normalize_response` says. Succeeds exactly when the
/// version has a normalized representation and every raw header is
/// legal; a fault is reported under its own kind.
pub fn normalize_transport_response(
    status: u16,
    version: &http::Version,
    raw_headers: &Vec<HeaderField>,
    body: Vec<u8>,
    url: String,
) -> (r: Result<NormalizedResponse, AdapterError>)
    ensures
        (r is Ok) <==> (crate::outside::version_repr(*version) is Some && all_raw_headers_ok(
            header_views(raw_headers@),
        )),
        r matches Ok(resp) ==> ({
            &&& resp.status == status
            &&& Some(resp.version) == crate::outside::version_repr(*version)
            &&& resp.body@ == body@
            &&& resp.url@ == url@
            &&& normalized_views(resp.headers@) == expected_entries(header_views(raw_headers@), 0)
        }),
        r matches Err(e) ==> (match first_header_flaw(header_views(raw_headers@)) {
            Some(f) => e == f,
            None => e == AdapterError::UnsupportedVersion,
        }),
{
    let v = crate::outside::version_from_http(version);
    normalize_response(status, v, raw_headers, body, url)
}

} // verus!
