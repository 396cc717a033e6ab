//! Error kinds of the library.
//!
//! A fetch converts everything that can go wrong — no results, missing or
//! rejected credentials, transport or decoding failures — into one of
//! these variants; the runner never surfaces them to the caller.  The
//! `Argument` and `Io` variants exist for the surrounding tool, which
//! alone may terminate on them.

use vstd::prelude::*;
use vstd::string::StringExecFns;

use crate::strutil::push_char;

verus! {

/// One error kind per way a fetch or the surrounding tool can fail.
#[derive(Debug)]
pub enum Error {
    /// The source answered but held no results (`no_results`).
    SourceError { source: String, host: String },
    /// Required environment credentials were not set (`missing_credentials`).
    KeyError { source: String, keys: Vec<String> },
    /// The upstream rejected the credentials (`auth`).
    AuthError { source: String },
    /// Network, TLS or timeout failure (`transport`).
    Transport,
    /// The response had an unexpected shape (`decode`).
    Decode,
    /// Command-line or input parse failure (`argument`).
    Argument { msg: String },
    /// Reading input or writing output failed (`io`).
    Io { msg: String },
}

/// The quoted, comma-separated rendering of a list of key names, as it
/// appears in a missing-credentials message.
pub open spec fn quoted_list(keys: Seq<Seq<char>>) -> Seq<char>
    decreases keys.len(),
{
    if keys.len() == 0 {
        Seq::empty()
    } else if keys.len() == 1 {
        seq!['"'] + keys[0] + seq!['"']
    } else {
        quoted_list(keys.drop_last()) + ", "@ + seq!['"'] + keys.last() + seq!['"']
    }
}

/// `e` is the no-results error of the given source for the given host.
pub open spec fn is_no_results(e: Error, source: Seq<char>, host: Seq<char>) -> bool {
    match e {
        Error::SourceError { source: s, host: h } => s@ == source && h@ == host,
        _ => false,
    }
}

/// `e` is the missing-credentials error of the given source.
pub open spec fn is_key_error(e: Error, source: Seq<char>, keys: Seq<Seq<char>>) -> bool {
    match e {
        Error::KeyError { source: s, keys: k } => s@ == source && k.deep_view() == keys,
        _ => false,
    }
}

/// `e` is the rejected-credentials error of the given source.
pub open spec fn is_auth_error(e: Error, source: Seq<char>) -> bool {
    match e {
        Error::AuthError { source: s } => s@ == source,
        _ => false,
    }
}

impl Error {
    /// The human-readable description of each kind.
    pub open spec fn message_spec(&self) -> Seq<char> {
        match self {
            Error::SourceError { source, host } => source@ + " couldn't find any results for: "@
                + host@,
            Error::KeyError { source, keys } => "Couldn't read ["@ + quoted_list(keys.deep_view())
                + "] for "@ + source@ + ". Check if you have them set."@,
            Error::AuthError { source } => "Couldn't authenticate to "@ + source@,
            Error::Transport => "network, TLS, or timeout failure"@,
            Error::Decode => "unexpected response shape"@,
            Error::Argument { msg } => msg@,
            Error::Io { msg } => msg@,
        }
    }

    /// A source found nothing for a host.
    pub fn source_error(source: &str, host: &str) -> (r: Error)
        ensures
            match r {
                Error::SourceError { source: s, host: h } => s@ == source@ && h@ == host@,
                _ => false,
            },
    {
        Error::SourceError { source: source.to_owned(), host: host.to_owned() }
    }

    /// A keyed source is missing its environment credentials.
    pub fn key_error(source: &str, keys: Vec<String>) -> (r: Error)
        ensures
            match r {
                Error::KeyError { source: s, keys: k } => s@ == source@ && k.deep_view()
                    == keys.deep_view(),
                _ => false,
            },
    {
        Error::KeyError { source: source.to_owned(), keys }
    }

    /// The upstream rejected the credentials.
    pub fn auth_error(source: &str) -> (r: Error)
        ensures
            match r {
                Error::AuthError { source: s } => s@ == source@,
                _ => false,
            },
    {
        Error::AuthError { source: source.to_owned() }
    }

    /// Renders the error for the log.
    pub fn message(&self) -> (r: String)
        ensures
            r@ == self.message_spec(),
    {
        match self {
            Error::SourceError { source, host } => source.clone().concat(
                " couldn't find any results for: ",
            ).concat(host.as_str()),
            Error::KeyError { source, keys } => {
                let mut list = String::new();
                let ghost kd = keys.deep_view();
                proof {
                    assert(quoted_list(kd.take(0)) =~= Seq::<char>::empty());
                }
                let mut k: usize = 0;
                while k < keys.len()
                    invariant
                        k <= keys.len(),
                        kd == keys.deep_view(),
                        list@ == quoted_list(kd.take(k as int)),
                    decreases keys.len() - k,
                {
                    proof {
                        assert(kd.take(k + 1).drop_last() =~= kd.take(k as int));
                        assert(kd.take(k + 1).last() == kd[k as int]);
                        assert(kd[k as int] == keys@[k as int]@);
                    }
                    if k > 0 {
                        list.append(", ");
                    }
                    push_char(&mut list, '"');
                    list.append(keys[k].as_str());
                    push_char(&mut list, '"');
                    proof {
                        assert(list@ =~= quoted_list(kd.take(k + 1)));
                    }
                    k = k + 1;
                }
                proof {
                    assert(kd.take(keys.len() as int) =~= kd);
                }
                String::from_str("Couldn't read [").concat(list.as_str()).concat("] for ").concat(
                    source.as_str(),
                ).concat(". Check if you have them set.")
            },
            Error::AuthError { source } => String::from_str("Couldn't authenticate to ").concat(
                source.as_str(),
            ),
            Error::Transport => String::from_str("network, TLS, or timeout failure"),
            Error::Decode => String::from_str("unexpected response shape"),
            Error::Argument { msg } => msg.clone(),
            Error::Io { msg } => msg.clone(),
        }
    }
}

} // verus!
