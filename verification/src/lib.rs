//! A verified core for an HTTP response-caching transport adapter.
//!
//! The library models an in-flight HTTP request as plain data (method,
//! target, protocol version, an order-preserving header list, body bytes),
//! proves the header bookkeeping that a caching engine relies on, and calls
//! the surrounding HTTP ecosystem crates through a small set of trusted
//! declarations.

use vstd::prelude::*;

pub mod adapter;
pub mod err;
pub mod fetch;
pub mod headers;
pub mod outside;
pub mod response;
pub mod text;
pub mod version;

verus! {

} // verus!
