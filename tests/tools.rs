use route_certs::certificate::format_cert_annotation;
use route_certs::config::CLUSTER_ISSUER_ANNOTATION_KEY;
use route_certs::identity::resource_to_string;
use route_certs::route::{format_cert_name, format_secret_name, is_valid_route, Route};

#[test]
fn test_resource_to_string() {
    assert_eq!(resource_to_string("name", "namespace"), "namespace/name");
    assert_ne!(resource_to_string("name", "namespace"), "name/namespace");
}

#[test]
fn test_format_cert_annotation() {
    let route = Route::new_test_route(
        &"world".to_owned(),
        &"hello".to_owned(),
        &"example.com".to_owned(),
        None,
        None,
    );
    assert_eq!(format_cert_annotation(None, &route, true), "hello/world");
    assert_eq!(
        format_cert_annotation(Some(&"".to_owned()), &route, true),
        "hello/world"
    );
    assert_eq!(
        format_cert_annotation(Some(&"foo/bar".to_owned()), &route, true),
        "foo/bar,hello/world"
    );
    assert_eq!(
        format_cert_annotation(Some(&"foo/bar,alice/bob".to_owned()), &route, true),
        "foo/bar,alice/bob,hello/world"
    );
    assert_eq!(format_cert_annotation(None, &route, false), "");
    assert_eq!(
        format_cert_annotation(Some(&"".to_owned()), &route, false),
        ""
    );
    assert_eq!(
        format_cert_annotation(Some(&"foo/bar".to_owned()), &route, false),
        "foo/bar"
    );
    assert_eq!(
        format_cert_annotation(Some(&"foo/bar,hello/world".to_owned()), &route, false),
        "foo/bar"
    );
}

#[test]
fn test_format_cert_name() {
    assert_eq!(format_cert_name("example.com"), "example.com-cert");
    assert_ne!(format_cert_name("example.com"), "example.com");
}

#[test]
fn test_format_secret_name() {
    assert_eq!(format_secret_name("example.com"), "example.com-tls");
    assert_ne!(format_secret_name("example.com"), "example.com");
}

#[test]
fn test_is_valid_route() {
    let route = Route::new_test_route(
        &"test_name".to_owned(),
        &"test_ns".to_owned(),
        &"test_host".to_owned(),
        None,
        None,
    );
    assert_eq!(is_valid_route(&route), false);
    let route = Route::new_test_route(
        &"test".to_owned(),
        &"test".to_owned(),
        &"test".to_owned(),
        Some(&"test".to_owned()),
        Some(&"foo".to_owned()),
    );
    assert_eq!(is_valid_route(&route), false);

    let route = Route::new_test_route(
        &"test".to_owned(),
        &"test".to_owned(),
        &"test".to_owned(),
        Some(&"test".to_owned()),
        Some(&CLUSTER_ISSUER_ANNOTATION_KEY.to_owned()),
    );
    assert_eq!(is_valid_route(&route), true);
}

#[test]
fn validity_table_of_all_four_combinations() {
    let key = CLUSTER_ISSUER_ANNOTATION_KEY.to_owned();
    let issuer = "my-issuer".to_owned();
    let name = "r".to_owned();
    let ns = "ns".to_owned();
    let host = "h.example.com".to_owned();

    let both = Route::new_test_route(&name, &ns, &host, Some(&issuer), Some(&key));
    assert!(is_valid_route(&both));

    let mut no_host = both.clone();
    no_host.spec.host = None;
    assert!(!is_valid_route(&no_host));

    let no_issuer = Route::new_test_route(&name, &ns, &host, None, None);
    assert!(!is_valid_route(&no_issuer));

    let mut neither = no_issuer.clone();
    neither.spec.host = None;
    assert!(!is_valid_route(&neither));
}

#[test]
fn route_and_certificate_text() {
    let route = Route::new_test_route(
        &"web".to_owned(),
        &"ns".to_owned(),
        &"web.example.com".to_owned(),
        None,
        None,
    );
    assert_eq!(route.to_text(), "ns/web");
    assert_eq!(route.identity().to_text(), "ns/web");
}
