//! Passive subdomain discovery core.
//!
//! The library gathers candidate subdomains for a set of root domains from
//! passive data sources, filters them down to names that belong to the
//! roots, and drives the fan-out of (host, source) fetch tasks under a
//! concurrency bound.  Network I/O itself lives outside the library;
//! everything the library does is stated in contracts and verified.

pub mod cleaner;
pub mod error;
pub mod http;
pub mod results;
pub mod runner;
pub mod sources;
pub mod strutil;
