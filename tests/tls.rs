use route_certs::error::Error;
use route_certs::route::{Route, RouteTls, RouteTlsInsecureEdgeTerminationPolicy, RouteTlsTermination};
use route_certs::tls::{
    format_route_update_annotation, get_secret_tls_data, is_tls_up_to_date,
    populate_route_tls, prepend_update_timestamp, route_tls_matches, SignedMaterial,
};

fn data(crt: Option<&str>, key: Option<&str>, ca: Option<&str>) -> Vec<(String, Vec<u8>)> {
    let mut d = Vec::new();
    if let Some(c) = crt {
        d.push(("tls.crt".to_owned(), c.as_bytes().to_vec()));
    }
    if let Some(k) = key {
        d.push(("tls.key".to_owned(), k.as_bytes().to_vec()));
    }
    if let Some(a) = ca {
        d.push(("ca.crt".to_owned(), a.as_bytes().to_vec()));
    }
    d
}

fn route_with_tls(crt: Option<&str>, key: Option<&str>, ca: Option<&str>) -> Route {
    let mut r = Route::new_test_route(
        &"web".to_owned(),
        &"ns".to_owned(),
        &"web.example.com".to_owned(),
        None,
        None,
    );
    r.spec.tls = Some(RouteTls {
        ca_certificate: ca.map(|s| s.to_owned()),
        certificate: crt.map(|s| s.to_owned()),
        destination_ca_certificate: None,
        insecure_edge_termination_policy: Some(RouteTlsInsecureEdgeTerminationPolicy::Allow),
        key: key.map(|s| s.to_owned()),
        termination: RouteTlsTermination::Reencrypt,
    });
    r
}

#[test]
fn no_tls_block_is_never_up_to_date() {
    let r = Route::new_test_route(&"a".to_owned(), &"b".to_owned(), &"c".to_owned(), None, None);
    assert_eq!(is_tls_up_to_date(&r, &data(Some("CERT"), Some("KEY"), None)), Ok(false));
}

#[test]
fn exact_match_is_up_to_date() {
    let r = route_with_tls(Some("CERT"), Some("KEY"), Some("CA"));
    assert_eq!(is_tls_up_to_date(&r, &data(Some("CERT"), Some("KEY"), Some("CA"))), Ok(true));
    let r = route_with_tls(Some("CERT"), Some("KEY"), None);
    assert_eq!(is_tls_up_to_date(&r, &data(Some("CERT"), Some("KEY"), None)), Ok(true));
}

#[test]
fn one_differing_byte_is_stale() {
    let d = data(Some("CERT"), Some("KEY"), Some("CA"));
    assert_eq!(is_tls_up_to_date(&route_with_tls(Some("CERX"), Some("KEY"), Some("CA")), &d), Ok(false));
    assert_eq!(is_tls_up_to_date(&route_with_tls(Some("CERT"), Some("KEX"), Some("CA")), &d), Ok(false));
    assert_eq!(is_tls_up_to_date(&route_with_tls(Some("CERT"), Some("KEY"), Some("CX")), &d), Ok(false));
    assert_eq!(is_tls_up_to_date(&route_with_tls(Some("CERT"), Some("KEY"), None), &d), Ok(false));
    assert_eq!(is_tls_up_to_date(&route_with_tls(None, Some("KEY"), Some("CA")), &d), Ok(false));
}

#[test]
fn missing_fields_are_a_missing_resource() {
    let r = route_with_tls(Some("CERT"), Some("KEY"), None);
    assert!(matches!(is_tls_up_to_date(&r, &data(None, Some("KEY"), None)), Err(Error::MissingResource(_))));
    assert!(matches!(get_secret_tls_data(&data(Some("CERT"), None, None)), Err(Error::MissingResource(_))));
    let m = get_secret_tls_data(&data(Some("CERT"), Some("KEY"), Some("CA"))).unwrap();
    assert_eq!(m.certificate, b"CERT".to_vec());
    assert_eq!(m.key, b"KEY".to_vec());
    assert_eq!(m.ca, Some(b"CA".to_vec()));
}

#[test]
fn populate_writes_the_material_and_keeps_termination() {
    let r = route_with_tls(Some("OLD"), Some("OLD"), None);
    let m = SignedMaterial { certificate: b"CERT".to_vec(), key: b"KEY".to_vec(), ca: Some(b"CA".to_vec()) };
    let p = populate_route_tls(&r, &m).unwrap();
    assert_eq!(p.certificate, "CERT");
    assert_eq!(p.key, "KEY");
    assert_eq!(p.ca_certificate, "CA");
    assert_eq!(p.termination, RouteTlsTermination::Reencrypt);
    assert_eq!(p.insecure_edge_termination_policy, Some(RouteTlsInsecureEdgeTerminationPolicy::Allow));
    assert!(!p.updates.is_empty());
    let mut populated = r.clone();
    populated.spec.tls = Some(RouteTls {
        ca_certificate: Some(p.ca_certificate.clone()),
        certificate: Some(p.certificate.clone()),
        destination_ca_certificate: None,
        insecure_edge_termination_policy: p.insecure_edge_termination_policy,
        key: Some(p.key.clone()),
        termination: p.termination,
    });
    assert!(route_tls_matches(&populated, &m));
}

#[test]
fn populate_defaults_to_edge_with_redirect_and_empty_ca() {
    let r = Route::new_test_route(&"a".to_owned(), &"b".to_owned(), &"c".to_owned(), None, None);
    let m = SignedMaterial { certificate: b"C".to_vec(), key: b"K".to_vec(), ca: None };
    let p = populate_route_tls(&r, &m).unwrap();
    assert_eq!(p.termination, RouteTlsTermination::Edge);
    assert_eq!(p.insecure_edge_termination_policy, Some(RouteTlsInsecureEdgeTerminationPolicy::Redirect));
    assert_eq!(p.ca_certificate, "");
}

#[test]
fn populate_refuses_material_that_is_not_utf8() {
    let r = Route::new_test_route(&"a".to_owned(), &"b".to_owned(), &"c".to_owned(), None, None);
    let m = SignedMaterial { certificate: vec![0xff, 0xfe], key: b"K".to_vec(), ca: None };
    assert!(matches!(populate_route_tls(&r, &m), Err(Error::InvalidEncoding(_))));
}

#[test]
fn update_trail_gets_a_timestamp_in_front() {
    assert_eq!(prepend_update_timestamp("T2", Some(&"T1".to_owned())), "T2,T1");
    assert_eq!(prepend_update_timestamp("T1", None), "T1");
    let previous = "2020-01-01 00:00:00 UTC".to_owned();
    let trail = format_route_update_annotation(Some(&previous));
    assert!(trail.ends_with(",2020-01-01 00:00:00 UTC"));
    assert!(trail.len() > previous.len() + 1);
    let fresh = format_route_update_annotation(None);
    assert!(!fresh.is_empty());
    assert!(!fresh.contains(','));
}
