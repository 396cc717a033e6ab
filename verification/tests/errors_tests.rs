//! Rendering of each error kind.

use vita::error::Error;

#[test]
fn no_results_message_names_source_and_host() {
    let e = Error::source_error("AnubisDB", "hackerone.com");
    assert_eq!(e.message(), "AnubisDB couldn't find any results for: hackerone.com");
}

#[test]
fn key_error_message_lists_every_key() {
    let e = Error::key_error("Facebook", vec!["FB_APP_ID".to_string(), "FB_APP_SECRET".to_string()]);
    assert_eq!(
        e.message(),
        "Couldn't read [\"FB_APP_ID\", \"FB_APP_SECRET\"] for Facebook. Check if you have them set."
    );
}

#[test]
fn key_error_message_with_a_single_key() {
    let e = Error::key_error("SomeSource", vec!["ONE_KEY".to_string()]);
    assert_eq!(
        e.message(),
        "Couldn't read [\"ONE_KEY\"] for SomeSource. Check if you have them set."
    );
}

#[test]
fn auth_error_message_names_the_source() {
    let e = Error::auth_error("passivetotal");
    assert_eq!(e.message(), "Couldn't authenticate to passivetotal");
}

#[test]
fn transport_and_decode_messages() {
    assert_eq!(Error::Transport.message(), "network, TLS, or timeout failure");
    assert_eq!(Error::Decode.message(), "unexpected response shape");
}

#[test]
fn argument_and_io_messages_carry_their_text() {
    let a = Error::Argument { msg: "concurrency must be a number".to_string() };
    assert_eq!(a.message(), "concurrency must be a number");
    let i = Error::Io { msg: "tried to read filepath roots.txt got missing".to_string() };
    assert_eq!(i.message(), "tried to read filepath roots.txt got missing");
}
