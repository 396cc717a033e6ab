//! The CertSpotter source: a free certificate-transparency log whose
//! answer is a list of issuances, each carrying DNS names.

use vstd::prelude::*;
use vstd::string::StringExecFns;

use crate::results::concat_seqs;
use crate::results::contains_string;
use crate::results::dedup_seq;
use crate::results::distinct;
use crate::results::lemma_dedup_distinct;

verus! {

/// The query URL for one host.
pub fn build_url(host: &str) -> (r: String)
    ensures
        r@ == "https://api.certspotter.com/v1/issuances?domain="@ + host@
            + "&include_subdomains=true&expand=dns_names"@,
{
    String::from_str("https://api.certspotter.com/v1/issuances?domain=").concat(host).concat(
        "&include_subdomains=true&expand=dns_names",
    )
}

/// The decision on a fetched response, given the DNS names of each
/// issuance: every name, deduplicated in order of first appearance.  An
/// answer that held nothing yields the empty set.
pub fn run(resp: Option<Vec<Vec<String>>>) -> (r: Vec<String>)
    ensures
        match resp {
            Some(data) => r.deep_view() == dedup_seq(concat_seqs(data.deep_view())),
            None => r.deep_view() == Seq::<Seq<char>>::empty(),
        },
        distinct(r.deep_view()),
{
    match resp {
        None => {
            let r: Vec<String> = Vec::new();
            proof {
                assert(r.deep_view() =~= Seq::<Seq<char>>::empty());
            }
            r
        },
        Some(data) => {
            let ghost dd = data.deep_view();
            let mut acc: Vec<String> = Vec::new();
            proof {
                assert(concat_seqs(dd.take(0)) =~= Seq::<Seq<char>>::empty());
                assert(dedup_seq(concat_seqs(dd.take(0))) =~= Seq::<Seq<char>>::empty());
            }
            let mut i: usize = 0;
            while i < data.len()
                invariant
                    i <= data.len(),
                    dd == data.deep_view(),
                    acc.deep_view() == dedup_seq(concat_seqs(dd.take(i as int))),
                decreases data.len() - i,
            {
                let ghost front = concat_seqs(dd.take(i as int));
                let ghost b = dd[i as int];
                proof {
                    assert(dd[i as int] == data@[i as int].deep_view());
                }
                let names = &data[i];
                let mut j: usize = 0;
                proof {
                    assert(front + b.take(0) =~= front);
                }
                while j < names.len()
                    invariant
                        j <= names.len(),
                        b == names.deep_view(),
                        acc.deep_view() == dedup_seq(front + b.take(j as int)),
                    decreases names.len() - j,
                {
                    let ghost cur = front + b.take(j as int);
                    proof {
                        assert(b[j as int] == names@[j as int]@);
                        let cur2 = front + b.take(j + 1);
                        assert(cur2.drop_last() =~= cur);
                        assert(cur2.last() == b[j as int]);
                    }
                    if !contains_string(&acc, names[j].as_str()) {
                        let x = names[j].clone();
                        acc.push(x);
                    }
                    j = j + 1;
                }
                proof {
                    assert(b.take(names.len() as int) =~= b);
                    assert(dd.take(i + 1).drop_last() =~= dd.take(i as int));
                    assert(dd.take(i + 1).last() == dd[i as int]);
                    assert(concat_seqs(dd.take(i + 1)) == front + b);
                }
                i = i + 1;
            }
            proof {
                assert(dd.take(data.len() as int) =~= dd);
                lemma_dedup_distinct(concat_seqs(dd));
            }
            acc
        },
    }
}

} // verus!
