//! The PassiveTotal source: keyed, queried with a JSON body, answering
//! with bare labels that must be re-rooted under the primary domain.

use vstd::prelude::*;
use vstd::string::StringExecFns;

use crate::error::Error;
use crate::error::is_auth_error;
use crate::error::is_key_error;
use crate::error::is_no_results;

verus! {

/// The names of the environment credentials this source needs.
pub open spec fn pt_key_names() -> Seq<Seq<char>> {
    seq!["PASSIVETOTAL_KEY"@, "PASSIVETOTAL_SECRET"@]
}

/// API credentials, sent with every request.
#[derive(Debug)]
pub struct Creds {
    key: String,
    secret: String,
}

impl Creds {
    pub closed spec fn spec_key(&self) -> Seq<char> {
        self.key@
    }

    pub closed spec fn spec_secret(&self) -> Seq<char> {
        self.secret@
    }

    /// The decision on the environment lookups: credentials exist exactly
    /// when both variables were set.
    pub fn from_env(key: Option<String>, secret: Option<String>) -> (r: Result<Creds, Error>)
        ensures
            match r {
                Ok(c) => {
                    &&& key matches Some(k) && c.spec_key() == k@
                    &&& secret matches Some(s) && c.spec_secret() == s@
                },
                Err(e) => (key is None || secret is None) && is_key_error(
                    e,
                    "PassiveTotal"@,
                    pt_key_names(),
                ),
            },
    {
        match (key, secret) {
            (Some(k), Some(s)) => Ok(Creds { key: k, secret: s }),
            _ => {
                let mut keys: Vec<String> = Vec::new();
                keys.push(String::from_str("PASSIVETOTAL_KEY"));
                keys.push(String::from_str("PASSIVETOTAL_SECRET"));
                proof {
                    assert(keys.deep_view() =~= pt_key_names());
                }
                Err(Error::key_error("PassiveTotal", keys))
            },
        }
    }

    /// The key, for the request's basic-auth user.
    pub fn key(&self) -> (r: &String)
        ensures
            r@ == self.spec_key(),
    {
        &self.key
    }

    /// The secret, for the request's basic-auth password.
    pub fn secret(&self) -> (r: &String)
        ensures
            r@ == self.spec_secret(),
    {
        &self.secret
    }
}

/// The JSON query body: the host being asked about.
#[derive(Debug)]
pub struct Query {
    query: String,
}

impl Query {
    pub closed spec fn spec_query(&self) -> Seq<char> {
        self.query@
    }

    pub fn new(host: &str) -> (r: Self)
        ensures
            r.spec_query() == host@,
    {
        Query { query: host.to_owned() }
    }

    /// The query text, for serialisation outside the library.
    pub fn query(&self) -> (r: &String)
        ensures
            r@ == self.spec_query(),
    {
        &self.query
    }
}

/// Each answered label re-rooted under the primary domain.
pub open spec fn rooted_names(subs: Seq<Seq<char>>, primary: Seq<char>) -> Seq<Seq<char>> {
    subs.map_values(|s: Seq<char>| s + "."@ + primary)
}

/// The response shape: the primary domain and its bare labels.
#[derive(Debug)]
pub struct PassiveTotalResult {
    pub success: bool,
    pub primary_domain: String,
    pub subdomains: Vec<String>,
}

impl PassiveTotalResult {
    /// The full names the response stands for, in response order.
    pub fn subdomains(&self) -> (r: Vec<String>)
        ensures
            r.deep_view() == rooted_names(self.subdomains.deep_view(), self.primary_domain@),
    {
        let ghost sd = self.subdomains.deep_view();
        let mut acc: Vec<String> = Vec::new();
        proof {
            assert(acc.deep_view() =~= rooted_names(sd.take(0), self.primary_domain@));
        }
        let mut i: usize = 0;
        while i < self.subdomains.len()
            invariant
                i <= self.subdomains.len(),
                sd == self.subdomains.deep_view(),
                acc.deep_view() == rooted_names(sd.take(i as int), self.primary_domain@),
            decreases self.subdomains.len() - i,
        {
            proof {
                assert(sd[i as int] == self.subdomains@[i as int]@);
            }
            let x = self.subdomains[i].clone().concat(".").concat(self.primary_domain.as_str());
            proof {
                assert(x@ == sd[i as int] + "."@ + self.primary_domain@);
                assert(rooted_names(sd.take(i + 1), self.primary_domain@) =~= rooted_names(
                    sd.take(i as int),
                    self.primary_domain@,
                ).push(sd[i as int] + "."@ + self.primary_domain@));
            }
            acc.push(x);
            proof {
                assert(acc.deep_view() =~= rooted_names(sd.take(i + 1), self.primary_domain@));
            }
            i = i + 1;
        }
        proof {
            assert(sd.take(self.subdomains.len() as int) =~= sd);
        }
        acc
    }
}

/// The PassiveTotal adapter, holding the run's shared HTTP client.
pub struct PassiveTotal {
    client: reqwest::Client,
}

impl PassiveTotal {
    pub fn new(client: reqwest::Client) -> Self {
        PassiveTotal { client }
    }

    /// The shared client, for the caller that issues the request.
    pub fn client(&self) -> &reqwest::Client {
        &self.client
    }

    /// The enrichment endpoint; the host travels in the query body.
    pub fn build_url(&self) -> (r: String)
        ensures
            r@ == "https://api.passivetotal.org/v2/enrichment/subdomains"@,
    {
        String::from_str("https://api.passivetotal.org/v2/enrichment/subdomains")
    }

    /// The decision after the HTTP exchange: a client-error status means
    /// the credentials were rejected; a missing body is a decode failure;
    /// an empty answer means no results; otherwise the re-rooted names
    /// are the batch to emit.
    pub fn process_response(host: &str, client_error: bool, resp: Option<PassiveTotalResult>) -> (r:
        Result<Vec<String>, Error>)
        ensures
            match r {
                Ok(v) => {
                    &&& !client_error
                    &&& resp matches Some(d)
                    &&& v.deep_view() == rooted_names(d.subdomains.deep_view(), d.primary_domain@)
                    &&& v.deep_view().len() > 0
                },
                Err(e) => {
                    if client_error {
                        is_auth_error(e, "passivetotal"@)
                    } else {
                        match resp {
                            None => e is Decode,
                            Some(d) => d.subdomains@.len() == 0 && is_no_results(
                                e,
                                "PassiveTotal"@,
                                host@,
                            ),
                        }
                    }
                },
            },
    {
        if client_error {
            return Err(Error::auth_error("passivetotal"));
        }
        match resp {
            None => Err(Error::Decode),
            Some(d) => {
                let subs = d.subdomains();
                if subs.len() == 0 {
                    proof {
                        assert(subs.deep_view().len() == 0);
                        assert(d.subdomains.deep_view().len() == 0);
                        assert(d.subdomains.deep_view().len() == d.subdomains@.len());
                    }
                    Err(Error::source_error("PassiveTotal", host))
                } else {
                    Ok(subs)
                }
            },
        }
    }
}

} // verus!
