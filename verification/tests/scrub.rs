use chimely::http::scrub::{scrub_pairs, scrub_query};

#[test]
fn scrubs_subscriber_hash_wherever_it_appears() {
    assert_eq!(
        scrub_query("environment=acme&subscriber_id=u1&subscriber_hash=deadbeef"),
        "environment=acme&subscriber_id=u1&subscriber_hash=redacted"
    );
    assert_eq!(scrub_query("subscriber_hash=x"), "subscriber_hash=redacted");
    assert_eq!(
        scrub_query("SUBSCRIBER_HASH=x&a=b"),
        "SUBSCRIBER_HASH=redacted&a=b"
    );
    // Percent-encoded names decode before matching: auth accepts
    // `subscriber%5Fhash`, so the scrub must catch it too.
    assert_eq!(
        scrub_query("subscriber%5Fhash=deadbeef"),
        "subscriber_hash=redacted"
    );
    assert_eq!(
        scrub_query("%73ubscriber_hash=deadbeef&a=b"),
        "subscriber_hash=redacted&a=b"
    );
    assert_eq!(scrub_query("a=b"), "a=b");
}

#[test]
fn logged_queries_are_re_encoded() {
    assert_eq!(scrub_query(""), "");
    assert_eq!(scrub_query("a"), "a=");
    assert_eq!(scrub_query("&&a=b&&"), "a=b");
    assert_eq!(scrub_query("a=b=c"), "a=b%3Dc");
    assert_eq!(scrub_query("a=1 2+3%204"), "a=1+2+3+4");
    assert_eq!(scrub_query("q=%0a%C3%A9*-._~"), "q=%0A%C3%A9*-._%7E");
    assert_eq!(scrub_query("a=%ff"), "a=%EF%BF%BD");
}

#[test]
fn pairs_are_scrubbed_one_by_one() {
    let pair = |a: &str, b: &str| (a.to_owned(), b.to_owned());
    assert_eq!(scrub_pairs(&vec![]), "");
    assert_eq!(
        scrub_pairs(&vec![
            pair("a", "b c"),
            pair("Subscriber_Hash", "one"),
            pair("subscriber_hash", "two"),
            pair("subscriber_hash2", "three"),
        ]),
        "a=b+c&Subscriber_Hash=redacted&subscriber_hash=redacted&subscriber_hash2=three"
    );
}

#[test]
fn queries_that_differ_in_the_credential_are_logged_alike() {
    assert_eq!(
        scrub_query("a=1&subscriber_hash=secret&b=2"),
        scrub_query("a=1&subscriber%5fhash=other%0Asecret&b=2")
    );
}

#[test]
fn scrubbing_twice_is_scrubbing_once() {
    for query in [
        "",
        "a",
        "=",
        "&&=&a==b&",
        "subscriber_hash=deadbeef&a=b",
        "subscriber%5Fhash&x",
        "a=1 2+3%204&b=%2B%26%3D%25",
        "q=%0a%C3%A9*-._~&%ff=%zz%4",
        "caf\u{e9}=\"quoted\"\n",
    ] {
        let once = scrub_query(query);
        assert_eq!(scrub_query(&once), once, "{query:?}");
        assert!(once.bytes().all(|b| b.is_ascii_alphanumeric() || b"*._-+%=&".contains(&b)));
    }
}
