//! The route's TLS block against the signed material of its certificate.
use crate::annotations::{get_annotation, lookup};
use crate::codec::opt_view;
use crate::config::{CA_CRT, ROUTE_UPDATE_ANNOTATION_KEY, TLS_CRT, TLS_KEY};
use crate::error::Error;
use crate::route::{Route, RouteTls, RouteTlsInsecureEdgeTerminationPolicy, RouteTlsTermination};
use vstd::prelude::*;
use vstd::slice::slice_to_vec;
use vstd::utf8::{encode_utf8, valid_utf8};

verus! {

/// The signed certificate, private key and optional CA chain.
#[derive(Clone, Debug, PartialEq, Eq)]
pub struct SignedMaterial {
    pub certificate: Vec<u8>,
    pub key: Vec<u8>,
    pub ca: Option<Vec<u8>>,
}

/// What populating a route writes: its TLS block and the update trail.
#[derive(Clone, Debug, PartialEq, Eq)]
pub struct RouteTlsPatch {
    pub termination: RouteTlsTermination,
    pub insecure_edge_termination_policy: Option<RouteTlsInsecureEdgeTerminationPolicy>,
    pub key: String,
    pub certificate: String,
    pub ca_certificate: String,
    /// New value of the update-trail annotation.
    pub updates: String,
}

/// The bytes that the first field named `key` holds.
pub open spec fn field(data: Seq<(String, Vec<u8>)>, key: Seq<char>) -> Option<Seq<u8>>
    decreases data.len(),
{
    if data.len() == 0 {
        None
    } else if data[0].0@ == key {
        Some(data[0].1@)
    } else {
        field(data.drop_first(), key)
    }
}

pub open spec fn opt_bytes(o: Option<Vec<u8>>) -> Option<Seq<u8>> {
    match o {
        Some(b) => Some(b@),
        None => None,
    }
}

/// The secret data holds the certificate and the key.
pub open spec fn has_tls_fields(data: Seq<(String, Vec<u8>)>) -> bool {
    field(data, TLS_CRT@) is Some && field(data, TLS_KEY@) is Some
}

/// The material that a secret's data holds.
pub open spec fn material_of(data: Seq<(String, Vec<u8>)>, m: SignedMaterial) -> bool {
    &&& field(data, TLS_CRT@) == Some(m.certificate@)
    &&& field(data, TLS_KEY@) == Some(m.key@)
    &&& field(data, CA_CRT@) == opt_bytes(m.ca)
}

/// The text's UTF-8 bytes are `b`.
pub open spec fn text_is(t: Option<String>, b: Seq<u8>) -> bool {
    t matches Some(s) && encode_utf8(s@) == b
}

/// The route's TLS block holds exactly the signed certificate and key, and
/// the CA chain where the material has one.
pub open spec fn tls_matches(route: Route, m: SignedMaterial) -> bool {
    match route.spec.tls {
        None => false,
        Some(tls) => {
            &&& text_is(tls.certificate, m.certificate@)
            &&& text_is(tls.key, m.key@)
            &&& match m.ca {
                None => true,
                Some(ca) => text_is(tls.ca_certificate, ca@),
            }
        },
    }
}

/// The update trail with the timestamp `stamp` put in front.
pub open spec fn prepended(stamp: Seq<char>, trail: Option<Seq<char>>) -> Seq<char> {
    match trail {
        Some(t) => stamp + seq![','] + t,
        None => stamp,
    }
}

/// The termination and insecure-traffic policy that a populated route keeps:
/// those of its TLS block, or edge termination with redirection.
pub open spec fn kept_termination(route: Route) -> (
    RouteTlsTermination,
    Option<RouteTlsInsecureEdgeTerminationPolicy>,
) {
    match route.spec.tls {
        Some(tls) => (tls.termination, tls.insecure_edge_termination_policy),
        None => (
            RouteTlsTermination::Edge,
            Some(RouteTlsInsecureEdgeTerminationPolicy::Redirect),
        ),
    }
}

/// All fields of the material are UTF-8 text.
pub open spec fn material_is_text(m: SignedMaterial) -> bool {
    &&& valid_utf8(m.certificate@)
    &&& valid_utf8(m.key@)
    &&& match m.ca {
        Some(ca) => valid_utf8(ca@),
        None => true,
    }
}

/// `p` writes the material into the route's TLS block, keeps its
/// termination, and puts a timestamp in front of its update trail.
pub open spec fn patch_for(route: Route, m: SignedMaterial, p: RouteTlsPatch) -> bool {
    &&& (p.termination, p.insecure_edge_termination_policy) == kept_termination(route)
    &&& encode_utf8(p.certificate@) == m.certificate@
    &&& encode_utf8(p.key@) == m.key@
    &&& match m.ca {
        Some(ca) => encode_utf8(p.ca_certificate@) == ca@,
        None => p.ca_certificate@.len() == 0,
    }
    &&& exists|stamp: Seq<char>|
        p.updates@ == prepended(
            stamp,
            lookup(route.metadata.annotations@, ROUTE_UPDATE_ANNOTATION_KEY@),
        )
}

/// A route without a TLS block is never up to date. One whose certificate,
/// key, or (where the material has one) CA chain differs from the material
/// in any byte is not up to date either; one that matches in all three is.
pub proof fn lemma_tls_freshness(route: Route, m: SignedMaterial)
    ensures
        route.spec.tls is None ==> !tls_matches(route, m),
        route.spec.tls matches Some(tls) ==> (tls_matches(route, m) <==> (text_is(
            tls.certificate,
            m.certificate@,
        ) && text_is(tls.key, m.key@) && (m.ca matches Some(ca) ==> text_is(
            tls.ca_certificate,
            ca@,
        )))),
{
}

/// The TLS block that a patch writes.
pub open spec fn tls_block_of(p: RouteTlsPatch) -> RouteTls {
    RouteTls {
        ca_certificate: Some(p.ca_certificate),
        certificate: Some(p.certificate),
        destination_ca_certificate: None,
        insecure_edge_termination_policy: p.insecure_edge_termination_policy,
        key: Some(p.key),
        termination: p.termination,
    }
}

/// Populating converges: a route whose TLS block is the one that the patch
/// for some material writes is up to date with that material.
pub proof fn lemma_populated_is_up_to_date(
    route: Route,
    m: SignedMaterial,
    p: RouteTlsPatch,
    after: Route,
)
    requires
        patch_for(route, m, p),
        after.spec.tls == Some(tls_block_of(p)),
    ensures
        tls_matches(after, m),
{
}

/// Relies on `std::str::from_utf8`: the bytes as text exactly when they are
/// valid UTF-8.
#[verifier::external_body]
fn text_from_utf8(b: &[u8]) -> (r: Option<String>)
    ensures
        r is Some <==> valid_utf8(b@),
        r matches Some(s) ==> encode_utf8(s@) == b@,
{
    std::str::from_utf8(b).ok().map(|s| s.to_owned())
}

/// Relies on `chrono::Utc::now` and its `Display`: the current time as text.
#[verifier::external_body]
fn now_text() -> (r: String) {
    chrono::Utc::now().to_string()
}

fn field_of<'a>(data: &'a Vec<(String, Vec<u8>)>, key: &str) -> (r: Option<&'a Vec<u8>>)
    ensures
        match r {
            Some(v) => field(data@, key@) == Some(v@),
            None => field(data@, key@) is None,
        },
{
    let k = key.to_owned();
    let mut i: usize = 0;
    assert(data@.subrange(0, data@.len() as int) =~= data@);
    while i < data.len()
        invariant
            i <= data@.len(),
            k@ == key@,
            field(data@, key@) == field(data@.subrange(i as int, data@.len() as int), key@),
        decreases data.len() - i,
    {
        let ghost rest = data@.subrange(i as int, data@.len() as int);
        assert(rest.drop_first() =~= data@.subrange(i + 1, data@.len() as int));
        assert(rest[0] == data@[i as int]);
        if data[i].0 == k {
            return Some(&data[i].1);
        }
        i = i + 1;
    }
    None
}

fn bytes_equal(a: &[u8], b: &[u8]) -> (r: bool)
    ensures
        r == (a@ == b@),
{
    if a.len() != b.len() {
        return false;
    }
    let mut i: usize = 0;
    while i < a.len()
        invariant
            i <= a@.len() == b@.len(),
            forall|j: int| 0 <= j < i ==> a@[j] == b@[j],
        decreases a.len() - i,
    {
        if a[i] != b[i] {
            return false;
        }
        i = i + 1;
    }
    assert(a@ =~= b@);
    true
}

fn text_matches(t: &Option<String>, b: &Vec<u8>) -> (r: bool)
    ensures
        r == text_is(*t, b@),
{
    match t {
        Some(s) => bytes_equal(s.as_str().as_bytes(), b.as_slice()),
        None => false,
    }
}

/// The signed material in a secret's data; `MissingResource` exactly when
/// the certificate or the key is absent.
pub fn get_secret_tls_data(data: &Vec<(String, Vec<u8>)>) -> (r: Result<SignedMaterial, Error>)
    ensures
        r is Ok <==> has_tls_fields(data@),
        match r {
            Ok(m) => material_of(data@, m),
            Err(e) => e is MissingResource,
        },
{
    let certificate = field_of(data, TLS_CRT);
    let key = field_of(data, TLS_KEY);
    if certificate.is_none() || key.is_none() {
        return Err(Error::MissingResource("tls".to_owned()));
    }
    let ca = match field_of(data, CA_CRT) {
        Some(c) => Some(slice_to_vec(c.as_slice())),
        None => None,
    };
    Ok(
        SignedMaterial {
            certificate: slice_to_vec(certificate.unwrap().as_slice()),
            key: slice_to_vec(key.unwrap().as_slice()),
            ca,
        },
    )
}

/// Whether the route's TLS block matches the material byte for byte: the
/// certificate, the key, and the CA chain where the material has one.
pub fn route_tls_matches(route: &Route, material: &SignedMaterial) -> (r: bool)
    ensures
        r == tls_matches(*route, *material),
{
    match &route.spec.tls {
        None => false,
        Some(tls) => {
            if !text_matches(&tls.certificate, &material.certificate) || !text_matches(
                &tls.key,
                &material.key,
            ) {
                return false;
            }
            match &material.ca {
                Some(ca) => text_matches(&tls.ca_certificate, ca),
                None => true,
            }
        },
    }
}

/// Whether the route's TLS block is up to date with the signed material in
/// a secret's data; `MissingResource` where the data lacks the certificate
/// or the key.
pub fn is_tls_up_to_date(route: &Route, data: &Vec<(String, Vec<u8>)>) -> (r: Result<bool, Error>)
    ensures
        r is Ok <==> has_tls_fields(data@),
        match r {
            Ok(b) => exists|m: SignedMaterial| material_of(data@, m) && b == tls_matches(*route, m),
            Err(e) => e is MissingResource,
        },
{
    match get_secret_tls_data(data) {
        Ok(m) => Ok(route_tls_matches(route, &m)),
        Err(e) => Err(e),
    }
}

/// The update trail with `timestamp` in front: `timestamp,previous`, or
/// the timestamp alone.
pub fn prepend_update_timestamp(timestamp: &str, annotation: Option<&String>) -> (r: String)
    ensures
        r@ == prepended(timestamp@, opt_view(annotation)),
{
    let mut r = String::from_str(timestamp);
    match annotation {
        Some(previous) => {
            proof {
                reveal_strlit(",");
            }
            r.append(",");
            r.append(previous.as_str());
        },
        None => {},
    }
    r
}

/// The update trail with the current time in front.
pub fn format_route_update_annotation(annotation: Option<&String>) -> (r: String)
    ensures
        exists|stamp: Seq<char>| r@ == prepended(stamp, opt_view(annotation)),
{
    let now = now_text();
    prepend_update_timestamp(now.as_str(), annotation)
}

/// The patch that writes the material into the route's TLS block;
/// `InvalidEncoding` exactly when a field of the material is not UTF-8 text.
pub fn populate_route_tls(route: &Route, material: &SignedMaterial) -> (r: Result<
    RouteTlsPatch,
    Error,
>)
    ensures
        r is Ok <==> material_is_text(*material),
        match r {
            Ok(p) => patch_for(*route, *material, p),
            Err(e) => e is InvalidEncoding,
        },
{
    let certificate = text_from_utf8(material.certificate.as_slice());
    let key = text_from_utf8(material.key.as_slice());
    let ca = match &material.ca {
        Some(c) => text_from_utf8(c.as_slice()),
        None => Some(String::new()),
    };
    if certificate.is_none() || key.is_none() || ca.is_none() {
        return Err(Error::InvalidEncoding("tls".to_owned()));
    }
    let (termination, insecure_edge_termination_policy) = match &route.spec.tls {
        Some(tls) => (tls.termination, tls.insecure_edge_termination_policy),
        None => (
            RouteTlsTermination::Edge,
            Some(RouteTlsInsecureEdgeTerminationPolicy::Redirect),
        ),
    };
    let updates = format_route_update_annotation(
        get_annotation(&route.metadata.annotations, ROUTE_UPDATE_ANNOTATION_KEY),
    );
    Ok(
        RouteTlsPatch {
            termination,
            insecure_edge_termination_policy,
            key: key.unwrap(),
            certificate: certificate.unwrap(),
            ca_certificate: ca.unwrap(),
            updates,
        },
    )
}

} // verus!
