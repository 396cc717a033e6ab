//! The post-processor and result accumulation, on concrete values.

use vita::cleaner::PostProcessor;
use vita::results::collect;
use vita::results::dedup_hosts;
use vita::results::flush_batch;

fn owned(v: &[&str]) -> Vec<String> {
    v.iter().map(|s| s.to_string()).collect()
}

fn root_cleaner(roots: &[&str]) -> PostProcessor {
    let mut pp = PostProcessor::default();
    pp.any_root(owned(roots));
    pp
}

fn sub_cleaner(roots: &[&str]) -> PostProcessor {
    let mut pp = PostProcessor::default();
    pp.any_subdomain(owned(roots));
    pp
}

#[test]
fn root_mode_keeps_subdomains() {
    let pp = root_cleaner(&["example.com"]);
    let batches = vec![owned(&["a.example.com", "b.example.com"])];
    let out = collect(&pp, &batches);
    assert_eq!(out, owned(&["a.example.com", "b.example.com"]));
}

#[test]
fn duplicate_results_are_reported_once() {
    let pp = root_cleaner(&["example.com"]);
    let batches = vec![owned(&["a.example.com"]), owned(&["a.example.com"])];
    let out = collect(&pp, &batches);
    assert_eq!(out, owned(&["a.example.com"]));
}

#[test]
fn unrelated_domains_are_dropped() {
    let pp = root_cleaner(&["example.com"]);
    let batches = vec![owned(&["a.example.com", "evil.org"])];
    let out = collect(&pp, &batches);
    assert_eq!(out, owned(&["a.example.com"]));
}

#[test]
fn sub_mode_keeps_one_label_only() {
    let pp = sub_cleaner(&["example.com"]);
    let batches = vec![owned(&["x.y.example.com", "z.example.com"])];
    let out = collect(&pp, &batches);
    assert_eq!(out, owned(&["z.example.com"]));
}

#[test]
fn sub_mode_drops_the_root_itself() {
    let pp = sub_cleaner(&["example.com"]);
    let batches = vec![owned(&["example.com", "a.example.com"])];
    let out = collect(&pp, &batches);
    assert_eq!(out, owned(&["a.example.com"]));
}

#[test]
fn root_mode_keeps_the_root_itself() {
    let pp = root_cleaner(&["example.com"]);
    assert_eq!(pp.clean("example.com"), Some("example.com".to_string()));
}

#[test]
fn flush_mode_streams_duplicates_in_order() {
    let pp = root_cleaner(&["a", "b"]);
    let batch = owned(&["a", "a", "b"]);
    let out = flush_batch(&pp, &batch);
    assert_eq!(out, owned(&["a", "a", "b"]));
}

#[test]
fn quotes_and_whitespace_are_stripped_and_case_folded() {
    let pp = root_cleaner(&["example.com"]);
    assert_eq!(pp.clean("  \"A.Example.COM\"  "), Some("a.example.com".to_string()));
}

#[test]
fn wildcards_are_dropped() {
    let pp = root_cleaner(&["example.com"]);
    assert_eq!(pp.clean("*.example.com"), None);
}

#[test]
fn characters_outside_the_dns_alphabet_are_dropped() {
    let pp = root_cleaner(&["example.com"]);
    assert_eq!(pp.clean("a_b.example.com"), None);
    assert_eq!(pp.clean("s\u{00e9}ance.example.com"), None);
    assert_eq!(pp.clean("dash-ok.example.com"), Some("dash-ok.example.com".to_string()));
}

#[test]
fn a_suffix_without_its_dot_does_not_match() {
    let pp = root_cleaner(&["example.com"]);
    assert_eq!(pp.clean("notexample.com"), None);
}

#[test]
fn multiple_roots_match_once_each() {
    let pp = root_cleaner(&["example.com", "hackerone.com"]);
    let batches = vec![owned(&["a.example.com", "b.hackerone.com", "b.hackerone.com"])];
    let out = collect(&pp, &batches);
    assert_eq!(out, owned(&["a.example.com", "b.hackerone.com"]));
}

#[test]
fn empty_input_collects_nothing() {
    let pp = root_cleaner(&["example.com"]);
    let batches: Vec<Vec<String>> = Vec::new();
    assert_eq!(collect(&pp, &batches), Vec::<String>::new());
}

#[test]
fn host_lists_are_deduplicated_in_order() {
    let hosts = owned(&["b.com", "a.com", "b.com", "c.com", "a.com"]);
    assert_eq!(dedup_hosts(&hosts), owned(&["b.com", "a.com", "c.com"]));
}

#[test]
fn two_runs_over_the_same_batches_agree() {
    let pp = root_cleaner(&["example.com"]);
    let batches = vec![owned(&["b.example.com", "a.example.com"]), owned(&["a.example.com"])];
    let first = collect(&pp, &batches);
    let second = collect(&pp, &batches);
    assert_eq!(first, second);
}
