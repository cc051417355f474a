//! The normalized protocol-version enumeration of the adapter.

use vstd::prelude::*;

verus! {

/// A protocol version the normalized representations can carry.
#[derive(Clone, Copy, Debug, PartialEq, Eq, Structural)]
pub enum HttpVersion {
    /// HTTP/0.9
    Http09,
    /// HTTP/1.0
    Http10,
    /// HTTP/1.1
    Http11,
    /// HTTP/2.0
    H2,
    /// HTTP/3.0
    H3,
}

} // verus!
