//! The Facebook certificate-transparency source: keyed, with a separate
//! authentication exchange that trades app credentials for a token.

use vstd::prelude::*;
use vstd::string::StringExecFns;

use crate::error::Error;
use crate::error::is_auth_error;
use crate::error::is_key_error;
use crate::error::is_no_results;
use crate::results::concat_seqs;

verus! {

/// The names of the environment credentials this source needs.
pub open spec fn fb_key_names() -> Seq<Seq<char>> {
    seq!["FB_APP_ID"@, "FB_APP_SECRET"@]
}

/// App credentials for the authentication exchange.
#[derive(Debug)]
pub struct Creds {
    app_id: String,
    app_secret: String,
}

impl Creds {
    pub closed spec fn spec_app_id(&self) -> Seq<char> {
        self.app_id@
    }

    pub closed spec fn spec_app_secret(&self) -> Seq<char> {
        self.app_secret@
    }

    /// The decision on the environment lookups: credentials exist exactly
    /// when both variables were set; a missing one is reported, not
    /// exceptional.
    pub fn read_creds(app_id: Option<String>, app_secret: Option<String>) -> (r: Result<
        Creds,
        Error,
    >)
        ensures
            match r {
                Ok(c) => {
                    &&& app_id matches Some(i) && c.spec_app_id() == i@
                    &&& app_secret matches Some(s) && c.spec_app_secret() == s@
                },
                Err(e) => (app_id is None || app_secret is None) && is_key_error(
                    e,
                    "Facebook"@,
                    fb_key_names(),
                ),
            },
    {
        match (app_id, app_secret) {
            (Some(i), Some(s)) => Ok(Creds { app_id: i, app_secret: s }),
            _ => {
                let mut keys: Vec<String> = Vec::new();
                keys.push(String::from_str("FB_APP_ID"));
                keys.push(String::from_str("FB_APP_SECRET"));
                proof {
                    assert(keys.deep_view() =~= fb_key_names());
                }
                Err(Error::key_error("Facebook", keys))
            },
        }
    }

    /// The URL of the authentication exchange for these credentials.
    pub fn auth_url(&self) -> (r: String)
        ensures
            r@ == "https://graph.facebook.com/oauth/access_token?client_id="@ + self.spec_app_id()
                + "&client_secret="@ + self.spec_app_secret() + "&grant_type=client_credentials"@,
    {
        String::from_str("https://graph.facebook.com/oauth/access_token?client_id=").concat(
            self.app_id.as_str(),
        ).concat("&client_secret=").concat(self.app_secret.as_str()).concat(
            "&grant_type=client_credentials",
        )
    }

    /// The decision on the authentication answer: a token when one came
    /// back, a rejected-credentials error otherwise.
    pub fn authenticate(resp: Option<String>) -> (r: Result<String, Error>)
        ensures
            match r {
                Ok(t) => resp matches Some(t0) && t@ == t0@,
                Err(e) => resp is None && is_auth_error(e, "Facebook"@),
            },
    {
        match resp {
            Some(t) => Ok(t),
            None => Err(Error::auth_error("Facebook")),
        }
    }
}

/// One group of DNS names inside a response.
#[derive(Debug)]
pub struct Subdomains {
    pub domains: Vec<String>,
}

impl DeepView for Subdomains {
    type V = Seq<Seq<char>>;

    open spec fn deep_view(&self) -> Seq<Seq<char>> {
        self.domains.deep_view()
    }
}

/// The response shape: a list of name groups.
#[derive(Debug)]
pub struct FacebookResult {
    pub data: Vec<Subdomains>,
}

impl FacebookResult {
    /// Every name of every group, in response order.
    pub fn subdomains(&self) -> (r: Vec<String>)
        ensures
            r.deep_view() == concat_seqs(self.data.deep_view()),
    {
        let ghost dd = self.data.deep_view();
        let mut acc: Vec<String> = Vec::new();
        proof {
            assert(concat_seqs(dd.take(0)) =~= Seq::<Seq<char>>::empty());
        }
        let mut i: usize = 0;
        while i < self.data.len()
            invariant
                i <= self.data.len(),
                dd == self.data.deep_view(),
                acc.deep_view() == concat_seqs(dd.take(i as int)),
            decreases self.data.len() - i,
        {
            let ghost front = concat_seqs(dd.take(i as int));
            let ghost b = dd[i as int];
            proof {
                assert(dd[i as int] == self.data@[i as int].deep_view());
            }
            let group = &self.data[i];
            let mut j: usize = 0;
            while j < group.domains.len()
                invariant
                    j <= group.domains.len(),
                    b == group.domains.deep_view(),
                    acc.deep_view() == front + b.take(j as int),
                decreases group.domains.len() - j,
            {
                proof {
                    assert(b[j as int] == group.domains@[j as int]@);
                }
                let x = group.domains[j].clone();
                proof {
                    assert(x@ == b[j as int]);
                    assert(front + b.take(j + 1) =~= (front + b.take(j as int)).push(b[j as int]));
                }
                acc.push(x);
                proof {
                    assert(acc.deep_view() =~= front + b.take(j + 1));
                }
                j = j + 1;
            }
            proof {
                assert(b.take(group.domains.len() as int) =~= b);
                assert(dd.take(i + 1).drop_last() =~= dd.take(i as int));
                assert(dd.take(i + 1).last() == dd[i as int]);
                assert(concat_seqs(dd.take(i + 1)) == front + b);
            }
            i = i + 1;
        }
        proof {
            assert(dd.take(self.data.len() as int) =~= dd);
        }
        acc
    }
}

/// The Facebook adapter, holding the run's shared HTTP client.
pub struct Facebook {
    client: reqwest::Client,
}

impl Facebook {
    pub fn new(client: reqwest::Client) -> Self {
        Facebook { client }
    }

    /// The shared client, for the caller that issues the requests.
    pub fn client(&self) -> &reqwest::Client {
        &self.client
    }

    /// The query URL for one host under one access token.
    pub fn build_url(&self, host: &str, token: &str) -> (r: String)
        ensures
            r@ == "https://graph.facebook.com/certificates?fields=domains&access_token="@ + token@
                + "&query=*."@ + host@,
    {
        String::from_str("https://graph.facebook.com/certificates?fields=domains&access_token=")
            .concat(token).concat("&query=*.").concat(host)
    }

    /// The decision on a fetched response: a missing or empty answer
    /// means no results, a non-empty one is the batch to emit.
    pub fn process_response(host: &str, resp: Option<FacebookResult>) -> (r: Result<
        Vec<String>,
        Error,
    >)
        ensures
            match r {
                Ok(v) => {
                    &&& resp matches Some(d)
                    &&& v.deep_view() == concat_seqs(d.data.deep_view())
                    &&& v.deep_view().len() > 0
                },
                Err(e) => is_no_results(e, "Facebook"@, host@) && match resp {
                    Some(d) => concat_seqs(d.data.deep_view()).len() == 0,
                    None => true,
                },
            },
    {
        match resp {
            Some(d) => {
                let subs = d.subdomains();
                if subs.len() == 0 {
                    Err(Error::source_error("Facebook", host))
                } else {
                    Ok(subs)
                }
            },
            None => Err(Error::source_error("Facebook", host)),
        }
    }
}

} // verus!
