//! The shared HTTP client type.
//!
//! One connection-pooled client, built by the surrounding tool with the
//! runner's timeout, is shared read-only by every fetch.  The library only
//! holds it and hands it back; every request is issued outside.

use vstd::prelude::*;

verus! {

/// Relies on reqwest's `Client`: a connection-pooled, internally
/// thread-safe HTTP client.  Declared so sources can hold one; the
/// library states nothing about it.
#[verifier::external_type_specification]
#[verifier::external_body]
pub struct ExClient(reqwest::Client);

} // verus!
