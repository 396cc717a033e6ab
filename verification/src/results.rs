//! Accumulating cleaned hostnames out of the batches a run produced.
//!
//! The consumer either streams each batch through the post-processor as it
//! arrives (flush), or collects everything into one deduplicated result
//! list whose order is the order of first appearance.

use vstd::prelude::*;

use crate::cleaner::FilterMode;
use crate::cleaner::PostProcessor;
use crate::cleaner::root_match;
use crate::cleaner::str_equal;
use crate::cleaner::sub_match;

verus! {

/// First-occurrence deduplication of a sequence of names.
pub open spec fn dedup_seq(s: Seq<Seq<char>>) -> Seq<Seq<char>>
    decreases s.len(),
{
    if s.len() == 0 {
        Seq::empty()
    } else {
        let rest = dedup_seq(s.drop_last());
        if rest.contains(s.last()) {
            rest
        } else {
            rest.push(s.last())
        }
    }
}

/// All the inner sequences, one after the other.
pub open spec fn concat_seqs<A>(s: Seq<Seq<A>>) -> Seq<A>
    decreases s.len(),
{
    if s.len() == 0 {
        Seq::empty()
    } else {
        concat_seqs(s.drop_last()) + s.last()
    }
}

/// No name appears twice.
pub open spec fn distinct(s: Seq<Seq<char>>) -> bool {
    forall|i: int, j: int| 0 <= i < j < s.len() ==> #[trigger] s[i] != #[trigger] s[j]
}

/// The names of one batch that pass the cleaner, in batch order.
pub open spec fn cleaned_batch(pp: PostProcessor, b: Seq<Seq<char>>) -> Seq<Seq<char>>
    decreases b.len(),
{
    if b.len() == 0 {
        Seq::empty()
    } else {
        let rest = cleaned_batch(pp, b.drop_last());
        match pp.clean_spec(b.last()) {
            Some(x) => rest.push(x),
            None => rest,
        }
    }
}

/// The cleaned names of a whole run, batch after batch.
pub open spec fn cleaned_all(pp: PostProcessor, bs: Seq<Seq<Seq<char>>>) -> Seq<Seq<char>>
    decreases bs.len(),
{
    if bs.len() == 0 {
        Seq::empty()
    } else {
        cleaned_all(pp, bs.drop_last()) + cleaned_batch(pp, bs.last())
    }
}

/// Deduplication never produces a duplicate: whatever the input, each name
/// is reported once.
pub proof fn lemma_dedup_distinct(s: Seq<Seq<char>>)
    ensures
        distinct(dedup_seq(s)),
    decreases s.len(),
{
    if s.len() > 0 {
        let rest = dedup_seq(s.drop_last());
        lemma_dedup_distinct(s.drop_last());
        if !rest.contains(s.last()) {
            let r = rest.push(s.last());
            assert forall|i: int, j: int| 0 <= i < j < r.len() implies #[trigger] r[i]
                != #[trigger] r[j] by {
                if j < rest.len() {
                    assert(rest[i] != rest[j]);
                } else {
                    assert(r[j] == s.last());
                    assert(r[i] == rest[i]);
                    assert(!rest.contains(s.last()));
                }
            }
        }
    }
}

/// Deduplication keeps exactly the names that were there.
pub proof fn lemma_dedup_membership(s: Seq<Seq<char>>, x: Seq<char>)
    ensures
        dedup_seq(s).contains(x) == s.contains(x),
    decreases s.len(),
{
    if s.len() > 0 {
        let rest = dedup_seq(s.drop_last());
        lemma_dedup_membership(s.drop_last(), x);
        if s.contains(x) {
            let k = choose|k: int| 0 <= k < s.len() && s[k] == x;
            if k < s.len() - 1 {
                assert(s.drop_last()[k] == x);
                assert(s.drop_last().contains(x));
            } else {
                assert(s.last() == x);
            }
            if rest.contains(x) {
                let m = choose|m: int| 0 <= m < rest.len() && rest[m] == x;
                if !rest.contains(s.last()) {
                    assert(rest.push(s.last())[m] == x);
                }
            } else {
                assert(x == s.last());
                assert(rest.push(x)[rest.len() as int] == x);
            }
        } else {
            assert(!s.drop_last().contains(x)) by {
                if s.drop_last().contains(x) {
                    let k = choose|k: int| 0 <= k < s.len() - 1 && s.drop_last()[k] == x;
                    assert(s[k] == x);
                }
            }
            assert(s.last() != x) by {
                if s.last() == x {
                    assert(s[s.len() - 1] == x);
                }
            }
            if !rest.contains(s.last()) {
                assert(!rest.push(s.last()).contains(x)) by {
                    if rest.push(s.last()).contains(x) {
                        let k = choose|k: int|
                            0 <= k < rest.len() + 1 && rest.push(s.last())[k] == x;
                        if k < rest.len() {
                            assert(rest[k] == x);
                        }
                    }
                }
            }
        }
    }
}

/// Every collected name was kept by the cleaner under its configured rule.
pub proof fn lemma_cleaned_batch_kept(pp: PostProcessor, b: Seq<Seq<char>>, x: Seq<char>)
    requires
        cleaned_batch(pp, b).contains(x),
    ensures
        pp.keeps(x),
    decreases b.len(),
{
    let rest = cleaned_batch(pp, b.drop_last());
    match pp.clean_spec(b.last()) {
        Some(y) => {
            let k = choose|k: int| 0 <= k < rest.len() + 1 && rest.push(y)[k] == x;
            if k < rest.len() {
                assert(rest[k] == x);
                lemma_cleaned_batch_kept(pp, b.drop_last(), x);
            } else {
                assert(y == x);
            }
        },
        None => {
            lemma_cleaned_batch_kept(pp, b.drop_last(), x);
        },
    }
}

/// As above, over every batch of a run.
pub proof fn lemma_cleaned_all_kept(pp: PostProcessor, bs: Seq<Seq<Seq<char>>>, x: Seq<char>)
    requires
        cleaned_all(pp, bs).contains(x),
    ensures
        pp.keeps(x),
    decreases bs.len(),
{
    let front = cleaned_all(pp, bs.drop_last());
    let back = cleaned_batch(pp, bs.last());
    let k = choose|k: int| 0 <= k < cleaned_all(pp, bs).len() && cleaned_all(pp, bs)[k] == x;
    if k < front.len() {
        assert(front[k] == x);
        lemma_cleaned_all_kept(pp, bs.drop_last(), x);
    } else {
        assert(back[k - front.len()] == x);
        lemma_cleaned_batch_kept(pp, bs.last(), x);
    }
}

/// Filter soundness in root mode: every name in the collected output
/// equals some root or has a root as a dot-preceded suffix.
pub proof fn lemma_root_mode_soundness(pp: PostProcessor, bs: Seq<Seq<Seq<char>>>, out: Seq<char>)
    requires
        pp.spec_mode() == FilterMode::Root,
        dedup_seq(cleaned_all(pp, bs)).contains(out),
    ensures
        exists|i: int|
            0 <= i < pp.spec_roots().len() && root_match(out, #[trigger] pp.spec_roots()[i]),
{
    lemma_dedup_membership(cleaned_all(pp, bs), out);
    lemma_cleaned_all_kept(pp, bs, out);
}

/// Filter soundness in sub mode: every name in the collected output is
/// exactly one DNS label below some root.
pub proof fn lemma_sub_mode_soundness(pp: PostProcessor, bs: Seq<Seq<Seq<char>>>, out: Seq<char>)
    requires
        pp.spec_mode() == FilterMode::Sub,
        dedup_seq(cleaned_all(pp, bs)).contains(out),
    ensures
        exists|i: int|
            0 <= i < pp.spec_roots().len() && sub_match(out, #[trigger] pp.spec_roots()[i]),
{
    lemma_dedup_membership(cleaned_all(pp, bs), out);
    lemma_cleaned_all_kept(pp, bs, out);
}

/// The cleaner is a function of its configuration alone: two
/// post-processors with the same roots and mode clean every batch alike.
pub proof fn lemma_cleaned_all_congruent(
    pp1: PostProcessor,
    pp2: PostProcessor,
    bs: Seq<Seq<Seq<char>>>,
)
    requires
        pp1.spec_roots() == pp2.spec_roots(),
        pp1.spec_mode() == pp2.spec_mode(),
    ensures
        cleaned_all(pp1, bs) == cleaned_all(pp2, bs),
    decreases bs.len(),
{
    if bs.len() > 0 {
        lemma_cleaned_all_congruent(pp1, pp2, bs.drop_last());
        lemma_cleaned_batch_congruent(pp1, pp2, bs.last());
    } else {
        assert(cleaned_all(pp1, bs) =~= cleaned_all(pp2, bs));
    }
}

proof fn lemma_cleaned_batch_congruent(pp1: PostProcessor, pp2: PostProcessor, b: Seq<Seq<char>>)
    requires
        pp1.spec_roots() == pp2.spec_roots(),
        pp1.spec_mode() == pp2.spec_mode(),
    ensures
        cleaned_batch(pp1, b) == cleaned_batch(pp2, b),
    decreases b.len(),
{
    if b.len() > 0 {
        lemma_cleaned_batch_congruent(pp1, pp2, b.drop_last());
    } else {
        assert(cleaned_batch(pp1, b) =~= cleaned_batch(pp2, b));
    }
}

/// Idempotence: two runs that saw the same batches under the same
/// configuration collect the same output.
pub proof fn lemma_collect_idempotent(
    pp1: PostProcessor,
    pp2: PostProcessor,
    bs: Seq<Seq<Seq<char>>>,
    r1: Seq<Seq<char>>,
    r2: Seq<Seq<char>>,
)
    requires
        pp1.spec_roots() == pp2.spec_roots(),
        pp1.spec_mode() == pp2.spec_mode(),
        r1 == dedup_seq(cleaned_all(pp1, bs)),
        r2 == dedup_seq(cleaned_all(pp2, bs)),
    ensures
        r1 == r2,
{
    lemma_cleaned_all_congruent(pp1, pp2, bs);
}

/// Membership test over an accumulated list of names.
pub fn contains_string(v: &Vec<String>, x: &str) -> (r: bool)
    ensures
        r == v.deep_view().contains(x@),
{
    let mut k: usize = 0;
    while k < v.len()
        invariant
            k <= v.len(),
            forall|m: int| 0 <= m < k ==> v.deep_view()[m] != x@,
        decreases v.len() - k,
    {
        proof {
            assert(v.deep_view()[k as int] == v@[k as int]@);
        }
        if str_equal(v[k].as_str(), x) {
            return true;
        }
        k = k + 1;
    }
    false
}

/// Removes duplicates from a list of hosts, keeping first occurrences in
/// order.
pub fn dedup_hosts(lines: &Vec<String>) -> (r: Vec<String>)
    ensures
        r.deep_view() == dedup_seq(lines.deep_view()),
        distinct(r.deep_view()),
{
    let ghost d = lines.deep_view();
    let mut acc: Vec<String> = Vec::new();
    proof {
        assert(dedup_seq(d.take(0)) =~= Seq::<Seq<char>>::empty());
    }
    let mut i: usize = 0;
    while i < lines.len()
        invariant
            i <= lines.len(),
            d == lines.deep_view(),
            acc.deep_view() == dedup_seq(d.take(i as int)),
        decreases lines.len() - i,
    {
        proof {
            assert(d.take(i + 1).drop_last() =~= d.take(i as int));
            assert(d.take(i + 1).last() == d[i as int]);
            assert(d[i as int] == lines@[i as int]@);
        }
        if !contains_string(&acc, lines[i].as_str()) {
            let h = lines[i].clone();
            acc.push(h);
        }
        i = i + 1;
    }
    proof {
        assert(d.take(lines.len() as int) =~= d);
        lemma_dedup_distinct(d);
    }
    acc
}

/// Streams one batch through the cleaner, in order and without
/// deduplication (flush mode).
pub fn flush_batch(pp: &PostProcessor, batch: &Vec<String>) -> (r: Vec<String>)
    ensures
        r.deep_view() == cleaned_batch(*pp, batch.deep_view()),
{
    let ghost d = batch.deep_view();
    let mut acc: Vec<String> = Vec::new();
    proof {
        assert(cleaned_batch(*pp, d.take(0)) =~= Seq::<Seq<char>>::empty());
    }
    let mut i: usize = 0;
    while i < batch.len()
        invariant
            i <= batch.len(),
            d == batch.deep_view(),
            acc.deep_view() == cleaned_batch(*pp, d.take(i as int)),
        decreases batch.len() - i,
    {
        proof {
            assert(d.take(i + 1).drop_last() =~= d.take(i as int));
            assert(d.take(i + 1).last() == d[i as int]);
            assert(d[i as int] == batch@[i as int]@);
        }
        match pp.clean(batch[i].as_str()) {
            Some(x) => {
                acc.push(x);
            },
            None => {},
        }
        i = i + 1;
    }
    proof {
        assert(d.take(batch.len() as int) =~= d);
    }
    acc
}

/// Collects every batch of a run into one deduplicated result list; each
/// kept name appears once, at the position of its first appearance.
pub fn collect(pp: &PostProcessor, batches: &Vec<Vec<String>>) -> (r: Vec<String>)
    ensures
        r.deep_view() == dedup_seq(cleaned_all(*pp, batches.deep_view())),
        distinct(r.deep_view()),
{
    let ghost bd = batches.deep_view();
    let mut acc: Vec<String> = Vec::new();
    proof {
        assert(cleaned_all(*pp, bd.take(0)) =~= Seq::<Seq<char>>::empty());
        assert(dedup_seq(cleaned_all(*pp, bd.take(0))) =~= Seq::<Seq<char>>::empty());
    }
    let mut i: usize = 0;
    while i < batches.len()
        invariant
            i <= batches.len(),
            bd == batches.deep_view(),
            acc.deep_view() == dedup_seq(cleaned_all(*pp, bd.take(i as int))),
        decreases batches.len() - i,
    {
        let ghost front = cleaned_all(*pp, bd.take(i as int));
        let ghost b = bd[i as int];
        proof {
            assert(bd[i as int] == batches@[i as int].deep_view());
        }
        let batch = &batches[i];
        let mut j: usize = 0;
        proof {
            assert(front + cleaned_batch(*pp, b.take(0)) =~= front);
        }
        while j < batch.len()
            invariant
                j <= batch.len(),
                b == batch.deep_view(),
                acc.deep_view() == dedup_seq(front + cleaned_batch(*pp, b.take(j as int))),
            decreases batch.len() - j,
        {
            let ghost cur = front + cleaned_batch(*pp, b.take(j as int));
            proof {
                assert(b.take(j + 1).drop_last() =~= b.take(j as int));
                assert(b.take(j + 1).last() == b[j as int]);
                assert(b[j as int] == batch@[j as int]@);
            }
            match pp.clean(batch[j].as_str()) {
                Some(x) => {
                    proof {
                        let cur2 = front + cleaned_batch(*pp, b.take(j + 1));
                        assert(cur2.drop_last() =~= cur);
                        assert(cur2.last() == x@);
                    }
                    if !contains_string(&acc, x.as_str()) {
                        acc.push(x);
                    }
                },
                None => {
                    proof {
                        assert(front + cleaned_batch(*pp, b.take(j + 1)) =~= cur);
                    }
                },
            }
            j = j + 1;
        }
        proof {
            assert(b.take(batch.len() as int) =~= b);
            assert(bd.take(i + 1).drop_last() =~= bd.take(i as int));
            assert(bd.take(i + 1).last() == bd[i as int]);
            assert(cleaned_all(*pp, bd.take(i + 1)) == front + cleaned_batch(*pp, b));
        }
        i = i + 1;
    }
    proof {
        assert(bd.take(batches.len() as int) =~= bd);
        lemma_dedup_distinct(cleaned_all(*pp, bd));
    }
    acc
}

} // verus!
