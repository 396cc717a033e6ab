//! The source adapters: URL construction, response decisions, and the
//! credential handling, on concrete values.

use vita::error::Error;
use vita::sources::anubisdb::AnubisDB;
use vita::sources::certspotter;
use vita::sources::facebook;
use vita::sources::passivetotal;

fn owned(v: &[&str]) -> Vec<String> {
    v.iter().map(|s| s.to_string()).collect()
}

#[test]
fn certspotter_url_builder() {
    let correct_uri = "https://api.certspotter.com/v1/issuances?domain=hackerone.com\
        &include_subdomains=true&expand=dns_names";
    assert_eq!(correct_uri, certspotter::build_url("hackerone.com"));
}

#[test]
fn anubisdb_url_builder() {
    let correct_uri = "https://jldc.me/anubis/subdomains/hackerone.com";
    let source = AnubisDB::new(reqwest::Client::new());
    assert_eq!(correct_uri, source.build_url("hackerone.com"));
}

#[test]
fn facebook_url_builder() {
    let source = facebook::Facebook::new(reqwest::Client::new());
    assert_eq!(
        "https://graph.facebook.com/certificates?fields=domains&access_token=tok&query=*.hackerone.com",
        source.build_url("hackerone.com", "tok")
    );
}

#[test]
fn passivetotal_url_builder() {
    let source = passivetotal::PassiveTotal::new(reqwest::Client::new());
    assert_eq!("https://api.passivetotal.org/v2/enrichment/subdomains", source.build_url());
}

#[test]
fn anubisdb_parses_an_array_body() {
    let body = "[\"a.hackerone.com\",\"b.hackerone.com\"]";
    let batch = AnubisDB::process_body("hackerone.com", body).unwrap();
    // serde_json renders each array element, so string items keep their
    // JSON quotes; the cleaner strips them later.
    assert_eq!(batch, owned(&["\"a.hackerone.com\"", "\"b.hackerone.com\""]));
}

#[test]
fn anubisdb_null_body_means_no_results() {
    let e = AnubisDB::process_body("anVubmxpa2VzdGVh.com", "null").unwrap_err();
    assert_eq!(
        e.message(),
        "AnubisDB couldn't find any results for: anVubmxpa2VzdGVh.com"
    );
}

#[test]
fn anubisdb_empty_array_means_no_results() {
    let e = AnubisDB::process_body("anVubmxpa2VzdGVh.com", "[]").unwrap_err();
    assert_eq!(
        e.message(),
        "AnubisDB couldn't find any results for: anVubmxpa2VzdGVh.com"
    );
}

#[test]
fn anubisdb_malformed_body_is_a_decode_error() {
    assert!(matches!(
        AnubisDB::process_body("hackerone.com", "not json").unwrap_err(),
        Error::Decode
    ));
    assert!(matches!(
        AnubisDB::process_body("hackerone.com", "{\"a\":1}").unwrap_err(),
        Error::Decode
    ));
}

#[test]
fn certspotter_flattens_and_deduplicates() {
    let resp = Some(vec![
        owned(&["a.hackerone.com", "b.hackerone.com"]),
        owned(&["b.hackerone.com", "c.hackerone.com"]),
    ]);
    assert_eq!(
        certspotter::run(resp),
        owned(&["a.hackerone.com", "b.hackerone.com", "c.hackerone.com"])
    );
}

#[test]
fn certspotter_missing_answer_is_empty() {
    assert_eq!(certspotter::run(None), Vec::<String>::new());
}

#[test]
fn facebook_creds_require_both_variables() {
    let c = facebook::Creds::read_creds(Some("id".to_string()), Some("secret".to_string()));
    assert!(c.is_ok());
    let e = facebook::Creds::read_creds(Some("id".to_string()), None).unwrap_err();
    assert_eq!(
        e.message(),
        "Couldn't read [\"FB_APP_ID\", \"FB_APP_SECRET\"] for Facebook. Check if you have them set."
    );
    assert!(matches!(
        facebook::Creds::read_creds(None, None).unwrap_err(),
        Error::KeyError { .. }
    ));
}

#[test]
fn facebook_auth_url_carries_the_credentials() {
    let c = facebook::Creds::read_creds(Some("id".to_string()), Some("sec".to_string())).unwrap();
    assert_eq!(
        c.auth_url(),
        "https://graph.facebook.com/oauth/access_token?client_id=id\
        &client_secret=sec&grant_type=client_credentials"
    );
}

#[test]
fn facebook_authentication_needs_a_token() {
    assert_eq!(
        facebook::Creds::authenticate(Some("tok".to_string())).unwrap(),
        "tok".to_string()
    );
    let e = facebook::Creds::authenticate(None).unwrap_err();
    assert!(matches!(e, Error::AuthError { .. }));
    assert_eq!(e.message(), "Couldn't authenticate to Facebook");
}

#[test]
fn facebook_flattens_every_group() {
    let resp = facebook::FacebookResult {
        data: vec![
            facebook::Subdomains { domains: owned(&["a.hackerone.com"]) },
            facebook::Subdomains { domains: owned(&["b.hackerone.com", "c.hackerone.com"]) },
        ],
    };
    let batch = facebook::Facebook::process_response("hackerone.com", Some(resp)).unwrap();
    assert_eq!(batch, owned(&["a.hackerone.com", "b.hackerone.com", "c.hackerone.com"]));
}

#[test]
fn facebook_empty_answer_means_no_results() {
    let resp = facebook::FacebookResult { data: Vec::new() };
    let e = facebook::Facebook::process_response("anVubmxpa2VzdGVh.com", Some(resp)).unwrap_err();
    assert_eq!(
        e.message(),
        "Facebook couldn't find any results for: anVubmxpa2VzdGVh.com"
    );
}

#[test]
fn passivetotal_creds_require_both_variables() {
    assert!(passivetotal::Creds::from_env(
        Some("key".to_string()),
        Some("secret".to_string())
    )
    .is_ok());
    let e = passivetotal::Creds::from_env(None, Some("secret".to_string())).unwrap_err();
    assert_eq!(
        e.message(),
        "Couldn't read [\"PASSIVETOTAL_KEY\", \"PASSIVETOTAL_SECRET\"] for PassiveTotal. \
        Check if you have them set."
    );
}

#[test]
fn passivetotal_query_carries_the_host() {
    let q = passivetotal::Query::new("hackerone.com");
    assert_eq!(q.query(), "hackerone.com");
}

#[test]
fn passivetotal_roots_each_label_under_the_primary_domain() {
    let resp = passivetotal::PassiveTotalResult {
        success: true,
        primary_domain: "hackerone.com".to_string(),
        subdomains: owned(&["www", "api"]),
    };
    let batch =
        passivetotal::PassiveTotal::process_response("hackerone.com", false, Some(resp)).unwrap();
    assert_eq!(batch, owned(&["www.hackerone.com", "api.hackerone.com"]));
}

#[test]
fn passivetotal_client_error_status_is_an_auth_error() {
    let e = passivetotal::PassiveTotal::process_response("hackerone.com", true, None).unwrap_err();
    assert!(matches!(e, Error::AuthError { .. }));
    assert_eq!(e.message(), "Couldn't authenticate to passivetotal");
}

#[test]
fn passivetotal_missing_body_is_a_decode_error() {
    let e = passivetotal::PassiveTotal::process_response("hackerone.com", false, None).unwrap_err();
    assert!(matches!(e, Error::Decode));
    assert_eq!(e.message(), "unexpected response shape");
}

#[test]
fn passivetotal_empty_answer_means_no_results() {
    let resp = passivetotal::PassiveTotalResult {
        success: true,
        primary_domain: "anVubmxpa2VzdGVh.com".to_string(),
        subdomains: Vec::new(),
    };
    let e = passivetotal::PassiveTotal::process_response("anVubmxpa2VzdGVh.com", false, Some(resp))
        .unwrap_err();
    assert_eq!(
        e.message(),
        "PassiveTotal couldn't find any results for: anVubmxpa2VzdGVh.com"
    );
}
