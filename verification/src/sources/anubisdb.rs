//! The AnubisDB source: a free certificate-transparency aggregate that
//! answers with a JSON array of names.

use vstd::prelude::*;
use vstd::string::StringExecFns;

use crate::error::Error;
use crate::error::is_no_results;

verus! {

/// What parsing an AnubisDB response body yields: nothing for a body that
/// is not the expected JSON shape, an empty answer for JSON `null`, and
/// otherwise the rendering of each array element.
pub uninterp spec fn anubis_parse(s: Seq<char>) -> Option<Option<Seq<Seq<char>>>>;

/// Relies on `serde_json::from_str` and `serde_json::Value`'s `Display`:
/// both are functions of the body text alone, so the outcome is named by
/// `anubis_parse`.  A JSON `null` body maps to `Some(None)`, a JSON array
/// to the compact rendering of each element, and anything else to `None`.
#[verifier::external_body]
fn parse_array_items(body: &str) -> (r: Option<Option<Vec<String>>>)
    ensures
        r.deep_view() == anubis_parse(body@),
{
    match serde_json::from_str::<Option<serde_json::Value>>(body) {
        Ok(Some(serde_json::Value::Array(items))) => Some(
            Some(items.iter().map(|v| v.to_string()).collect()),
        ),
        Ok(Some(_)) => None,
        Ok(None) => Some(None),
        Err(_) => None,
    }
}

/// The AnubisDB adapter, holding the run's shared HTTP client.
pub struct AnubisDB {
    client: reqwest::Client,
}

impl AnubisDB {
    pub fn new(client: reqwest::Client) -> Self {
        AnubisDB { client }
    }

    /// The shared client, for the caller that issues the request.
    pub fn client(&self) -> &reqwest::Client {
        &self.client
    }

    /// The query URL for one host.
    pub fn build_url(&self, host: &str) -> (r: String)
        ensures
            r@ == "https://jldc.me/anubis/subdomains/"@ + host@,
    {
        String::from_str("https://jldc.me/anubis/subdomains/").concat(host)
    }

    /// The decision on a fetched response body: a malformed body is a
    /// decode failure, an empty or `null` answer means no results, and a
    /// non-empty array is the batch to emit.
    pub fn process_body(host: &str, body: &str) -> (r: Result<Vec<String>, Error>)
        ensures
            match r {
                Ok(v) => {
                    &&& anubis_parse(body@) matches Some(inner)
                    &&& inner matches Some(items)
                    &&& items == v.deep_view()
                    &&& items.len() > 0
                },
                Err(e) => match anubis_parse(body@) {
                    None => e is Decode,
                    Some(inner) => match inner {
                        None => is_no_results(e, "AnubisDB"@, host@),
                        Some(items) => items.len() == 0 && is_no_results(e, "AnubisDB"@, host@),
                    },
                },
            },
    {
        match parse_array_items(body) {
            None => Err(Error::Decode),
            Some(None) => Err(Error::source_error("AnubisDB", host)),
            Some(Some(items)) => {
                if items.len() == 0 {
                    Err(Error::source_error("AnubisDB", host))
                } else {
                    Ok(items)
                }
            },
        }
    }
}

} // verus!
