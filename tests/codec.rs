use route_certs::certificate::format_cert_annotation;
use route_certs::codec::{decode, encode, update_index};
use route_certs::identity::Identity;
use route_certs::route::Route;

fn id(ns: &str, name: &str) -> Identity {
    Identity::new(ns, name)
}

#[test]
fn back_reference_lifecycle() {
    let r1 = id("ns1", "r1");
    let added = update_index(None, &r1, true);
    assert_eq!(added, "ns1/r1");
    let again = update_index(Some(&added), &r1, true);
    assert_eq!(again, "ns1/r1");
    let removed = update_index(Some(&again), &r1, false);
    assert_eq!(removed, "");
    let other = id("ns2", "r2");
    let untouched = update_index(Some(&added), &other, false);
    assert_eq!(untouched, "ns1/r1");
}

#[test]
fn adding_twice_equals_adding_once() {
    let route = Route::new_test_route(
        &"web".to_owned(),
        &"ns".to_owned(),
        &"web.example.com".to_owned(),
        None,
        None,
    );
    for start in [None, Some("".to_owned()), Some("a/b,c/d".to_owned()), Some("ns/web,x/y".to_owned())] {
        let once = format_cert_annotation(start.as_ref(), &route, true);
        let twice = format_cert_annotation(Some(&once), &route, true);
        assert_eq!(once, twice);
    }
}

#[test]
fn round_trip_of_a_set_of_identities() {
    let ids = vec![id("a", "one"), id("b", "two"), id("c", "three/with/slashes")];
    let text = encode(&ids);
    assert_eq!(text, "a/one,b/two,c/three/with/slashes");
    assert_eq!(decode(&text), ids);
    let empty: Vec<Identity> = Vec::new();
    assert_eq!(encode(&empty), "");
    assert_eq!(decode(""), empty);
}

#[test]
fn decode_drops_entries_without_slash_and_duplicates() {
    let got = decode("a/b,garbage,,a/b,c/d");
    assert_eq!(got, vec![id("a", "b"), id("c", "d")]);
}

#[test]
fn parse_splits_at_first_slash() {
    assert_eq!(Identity::parse("ns/a/b"), Some(id("ns", "a/b")));
    assert_eq!(Identity::parse("noslash"), None);
    assert_eq!(Identity::parse("/"), Some(id("", "")));
}

#[test]
fn removing_drops_only_that_route_and_garbage() {
    let r = id("x", "y");
    let current = "a/b,x/y,junk,c/d".to_owned();
    assert_eq!(update_index(Some(&current), &r, false), "a/b,c/d");
}
