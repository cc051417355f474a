//! The adapter's failure taxonomy. Construction and parse failures are kept
//! apart from transport failures, which the I/O layer reports with the
//! underlying cause.

use vstd::prelude::*;

verus! {

/// Why an adapter operation failed.
#[derive(Clone, Debug, PartialEq, Eq)]
pub enum AdapterError {
    /// The method token is empty or holds a byte outside the token alphabet.
    InvalidMethod,
    /// A header name is empty, too long, or holds a forbidden byte.
    InvalidHeaderName,
    /// A header value holds a forbidden control byte.
    InvalidHeaderValue,
    /// The request target is not a valid absolute URL.
    UrlParse,
    /// The transport-native request could not be assembled.
    RequestBuild,
    /// The transport-native response could not be assembled.
    ResponseBuild,
    /// A response header value is not representable as text.
    HeaderDecode,
    /// The response protocol version has no normalized representation.
    UnsupportedVersion,
    /// A header table outgrew the transport's capacity.
    HeaderCapacity,
    /// The underlying client failed; the message carries the cause.
    Transport(String),
}

} // verus!
