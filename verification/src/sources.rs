//! The source adapters: one module per upstream passive data source.
//!
//! Each adapter contributes its URL construction and the decision taken on
//! the (already fetched) response; the HTTP exchange itself happens
//! outside the library, through the shared client the adapter holds.

pub mod anubisdb;
pub mod certspotter;
pub mod facebook;
pub mod passivetotal;
