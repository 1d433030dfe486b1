//! Certificates: the request made for a hostname, and the back-reference
//! index of routes that each one keeps in an annotation.
use crate::annotations::{get_annotation, lookup, set_annotation};
use crate::codec::{
    lemma_add_idempotent, lemma_add_lists, lemma_remove_unlists, lists, opt_view, text_of,
    update_index, updated_index, views,
};
use crate::config::{
    CERT_ANNOTATION_KEY, CLUSTER_ISSUER_ANNOTATION_KEY, ISSUER_GROUP, ISSUER_KIND,
    PRIVATE_KEY_SIZE,
};
use crate::error::Error;
use crate::identity::{parse_entry, well_formed, IdView, Identity};
use crate::route::{
    cert_name, format_cert_name, format_secret_name, is_valid, issuer_of, route_id, secret_name,
    Route,
};
use crate::text::{split, split_str};
use vstd::prelude::*;

verus! {

#[derive(Clone, Debug, PartialEq, Eq)]
pub struct CertificateIssuerRef {
    pub name: String,
    pub kind: Option<String>,
    pub group: Option<String>,
}

#[derive(Clone, Copy, Debug, PartialEq, Eq, Structural)]
pub enum CertificatePrivateKeyAlgorithm {
    Rsa,
    Ecdsa,
    Ed25519,
}

#[derive(Clone, Copy, Debug, PartialEq, Eq, Structural)]
pub struct CertificatePrivateKey {
    pub algorithm: Option<CertificatePrivateKeyAlgorithm>,
    pub size: Option<u32>,
}

/// A request for signed TLS material for a set of DNS names.
#[derive(Clone, Debug, PartialEq, Eq)]
pub struct Certificate {
    pub name: String,
    pub namespace: String,
    pub annotations: Vec<(String, String)>,
    pub secret_name: String,
    pub dns_names: Option<Vec<String>>,
    pub issuer_ref: CertificateIssuerRef,
    pub is_ca: Option<bool>,
    pub private_key: Option<CertificatePrivateKey>,
}

/// The back-reference index value that a certificate carries, if any.
pub open spec fn cert_index(cert: Certificate) -> Option<Seq<char>> {
    lookup(cert.annotations@, CERT_ANNOTATION_KEY@)
}

/// The certificate lists the route with identity `id`.
pub open spec fn cert_lists(cert: Certificate, id: IdView) -> bool {
    lists(text_of(cert_index(cert)), id)
}

/// `after` is the annotation map `before` with the index value updated for
/// `id`, every other annotation kept.
pub open spec fn annotated(
    before: Seq<(String, String)>,
    id: IdView,
    add: bool,
    after: Seq<(String, String)>,
) -> bool {
    &&& lookup(after, CERT_ANNOTATION_KEY@) == Some(
        updated_index(lookup(before, CERT_ANNOTATION_KEY@), id, add),
    )
    &&& forall|other: Seq<char>|
        other != CERT_ANNOTATION_KEY@ ==> #[trigger] lookup(after, other) == lookup(before, other)
}

/// What `new_default` builds: a certificate `name` in `namespace` for one
/// hostname, issued by the cluster issuer `issuer`, not a CA, with an
/// elliptic-curve key of the default size.
pub open spec fn is_default_certificate(
    c: Certificate,
    name: Seq<char>,
    hostname: Seq<char>,
    issuer: Seq<char>,
    namespace: Seq<char>,
) -> bool {
    &&& c.name@ == name
    &&& c.namespace@ == namespace
    &&& c.annotations@.len() == 0
    &&& c.secret_name@ == secret_name(hostname)
    &&& c.dns_names matches Some(d) && d@.len() == 1 && d@[0]@ == hostname
    &&& c.issuer_ref.name@ == issuer
    &&& c.issuer_ref.kind matches Some(k) && k@ == ISSUER_KIND@
    &&& c.issuer_ref.group matches Some(g) && g@ == ISSUER_GROUP@
    &&& c.is_ca == Some(false)
    &&& c.private_key == Some(
        CertificatePrivateKey {
            algorithm: Some(CertificatePrivateKeyAlgorithm::Ecdsa),
            size: Some(PRIVATE_KEY_SIZE),
        },
    )
}

/// The identity that the watch hands on for one index entry: the entry read
/// as `namespace/name`, or the empty identity where it has no slash.
pub open spec fn requeue_target(e: Seq<char>) -> IdView {
    match parse_entry(e) {
        Some(id) => id,
        None => (Seq::<char>::empty(), Seq::<char>::empty()),
    }
}

/// The identities that a change of a certificate with index value `index`
/// hands on, one per entry.
pub open spec fn requeue_targets(index: Option<Seq<char>>) -> Seq<IdView> {
    match index {
        Some(s) => split(s, ',').map_values(|e: Seq<char>| requeue_target(e)),
        None => Seq::<IdView>::empty(),
    }
}

impl Certificate {
    /// `namespace/name`.
    pub fn to_text(&self) -> (r: String)
        ensures
            r@ == crate::identity::id_text((self.namespace@, self.name@)),
    {
        crate::identity::resource_to_string(self.name.as_str(), self.namespace.as_str())
    }

    /// A certificate `name` in `namespace` for `hostname`, issued by the
    /// cluster issuer `issuer_name`.
    pub fn new_default(
        name: &String,
        hostname: &String,
        issuer_name: &String,
        namespace: &String,
    ) -> (r: Certificate)
        ensures
            is_default_certificate(r, name@, hostname@, issuer_name@, namespace@),
    {
        let mut dns_names: Vec<String> = Vec::new();
        dns_names.push(hostname.clone());
        Certificate {
            name: name.clone(),
            namespace: namespace.clone(),
            annotations: Vec::new(),
            secret_name: format_secret_name(hostname.as_str()),
            dns_names: Some(dns_names),
            issuer_ref: CertificateIssuerRef {
                name: issuer_name.clone(),
                kind: Some(ISSUER_KIND.to_owned()),
                group: Some(ISSUER_GROUP.to_owned()),
            },
            is_ca: Some(false),
            private_key: Some(
                CertificatePrivateKey {
                    algorithm: Some(CertificatePrivateKeyAlgorithm::Ecdsa),
                    size: Some(PRIVATE_KEY_SIZE),
                },
            ),
        }
    }
}

/// The certificate to create for a managed route: named after its
/// hostname, in `namespace`, issued by the route's issuer directive.
pub fn create_certificate(route: &Route, namespace: &String) -> (r: Certificate)
    requires
        is_valid(*route),
    ensures
        is_default_certificate(
            r,
            cert_name(route.spec.host->0@),
            route.spec.host->0@,
            issuer_of(*route)->0,
            namespace@,
        ),
{
    let hostname = route.spec.host.as_ref().unwrap();
    let issuer = get_annotation(&route.metadata.annotations, CLUSTER_ISSUER_ANNOTATION_KEY).unwrap();
    let name = format_cert_name(hostname.as_str());
    Certificate::new_default(&name, hostname, issuer, namespace)
}

/// Whether a lookup found the certificate. Every failure counts as absence.
pub fn certificate_exists(fetched: &Result<Certificate, Error>) -> (r: bool)
    ensures
        r == fetched is Ok,
{
    fetched.is_ok()
}

/// Whether the certificate's index lists the route.
pub fn is_cert_annotated(cert: &Certificate, route: &Route) -> (r: bool)
    ensures
        r == cert_lists(*cert, route_id(*route)),
{
    let index = get_annotation(&cert.annotations, CERT_ANNOTATION_KEY);
    let text = match index {
        Some(s) => s.clone(),
        None => String::new(),
    };
    assert(text@ == text_of(cert_index(*cert)));
    let ids = crate::codec::decode(text.as_str());
    let id = route.identity();
    let mut i: usize = 0;
    while i < ids.len()
        invariant
            i <= ids@.len(),
            id@ == route_id(*route),
            views(ids@) == crate::codec::index_entries(text_of(cert_index(*cert))),
            forall|j: int| 0 <= j < i ==> (#[trigger] ids@[j])@ != id@,
        decreases ids.len() - i,
    {
        if ids[i].same(&id) {
            assert(views(ids@)[i as int] == id@);
            assert(views(ids@).contains(id@));
            return true;
        }
        i = i + 1;
    }
    proof {
        if views(ids@).contains(id@) {
            let k = choose|k: int| 0 <= k < views(ids@).len() && views(ids@)[k] == id@;
            assert(ids@[k]@ == id@);
        }
    }
    false
}

/// The index value after adding (`add`) or removing the route. Adding to
/// an absent or empty value gives the route alone.
pub fn format_cert_annotation(cert_annotation: Option<&String>, route: &Route, add: bool) -> (r:
    String)
    ensures
        r@ == updated_index(opt_view(cert_annotation), route_id(*route), add),
{
    let id = route.identity();
    update_index(cert_annotation, &id, add)
}

/// The certificate's annotations with its index updated for the route; this
/// is the whole content of the metadata patch that records the change.
pub fn annotate_cert(cert: &Certificate, route: &Route, add: bool) -> (r: Vec<(String, String)>)
    ensures
        annotated(cert.annotations@, route_id(*route), add, r@),
{
    let index = format_cert_annotation(
        get_annotation(&cert.annotations, CERT_ANNOTATION_KEY),
        route,
        add,
    );
    set_annotation(&cert.annotations, CERT_ANNOTATION_KEY, index)
}

/// The route identities to check again when a certificate changes: one per
/// entry of its index, the empty identity for an entry without a slash.
pub fn routes_to_requeue(cert: &Certificate) -> (r: Vec<Identity>)
    ensures
        views(r@) == requeue_targets(cert_index(*cert)),
{
    match get_annotation(&cert.annotations, CERT_ANNOTATION_KEY) {
        Some(index) => {
            let pieces = split_str(index.as_str(), ',');
            let ghost es = split(index@, ',');
            let mut r: Vec<Identity> = Vec::new();
            let mut i: usize = 0;
            while i < pieces.len()
                invariant
                    i <= pieces@.len() == es.len(),
                    forall|k: int| 0 <= k < pieces@.len() ==> (#[trigger] pieces@[k])@ == es[k],
                    views(r@) == es.subrange(0, i as int).map_values(
                        |e: Seq<char>| requeue_target(e),
                    ),
                decreases pieces.len() - i,
            {
                assert(pieces@[i as int]@ == es[i as int]);
                let id = match Identity::parse(pieces[i].as_str()) {
                    Some(id) => id,
                    None => {
                        let empty = Identity { namespace: String::new(), name: String::new() };
                        assert(empty@ =~= (Seq::<char>::empty(), Seq::<char>::empty()));
                        empty
                    },
                };
                assert(id@ == requeue_target(es[i as int]));
                assert(es.subrange(0, i + 1) =~= es.subrange(0, i as int).push(es[i as int]));
                let ghost before = views(r@);
                r.push(id);
                assert(views(r@) =~= before.push(requeue_target(es[i as int])));
                assert(es.subrange(0, i + 1).map_values(|e: Seq<char>| requeue_target(e))
                    =~= es.subrange(0, i as int).map_values(|e: Seq<char>| requeue_target(e)).push(
                    requeue_target(es[i as int]),
                ));
                assert(views(r@) =~= es.subrange(0, i + 1).map_values(
                    |e: Seq<char>| requeue_target(e),
                ));
                i = i + 1;
            }
            assert(es.subrange(0, pieces.len() as int) =~= es);
            r
        },
        None => {
            let r: Vec<Identity> = Vec::new();
            assert(views(r@) =~= Seq::<IdView>::empty());
            r
        },
    }
}

/// Writing the same route into a certificate's index twice leaves the index
/// as the first write left it.
pub proof fn lemma_annotate_idempotent(
    before: Seq<(String, String)>,
    once: Seq<(String, String)>,
    twice: Seq<(String, String)>,
    id: IdView,
)
    requires
        well_formed(id),
        annotated(before, id, true, once),
        annotated(once, id, true, twice),
    ensures
        lookup(twice, CERT_ANNOTATION_KEY@) == lookup(once, CERT_ANNOTATION_KEY@),
        forall|other: Seq<char>| #[trigger] lookup(twice, other) == lookup(once, other),
{
    lemma_add_idempotent(lookup(before, CERT_ANNOTATION_KEY@), id);
}

/// After a route is written into a certificate's index, the index lists it;
/// after it is taken out, the index does not.
pub proof fn lemma_annotate_membership(
    before: Seq<(String, String)>,
    after: Seq<(String, String)>,
    id: IdView,
    add: bool,
)
    requires
        add ==> well_formed(id),
        annotated(before, id, add, after),
    ensures
        add ==> lists(text_of(lookup(after, CERT_ANNOTATION_KEY@)), id),
        !add ==> !lists(text_of(lookup(after, CERT_ANNOTATION_KEY@)), id),
{
    if add {
        lemma_add_lists(lookup(before, CERT_ANNOTATION_KEY@), id);
    } else {
        lemma_remove_unlists(lookup(before, CERT_ANNOTATION_KEY@), id);
    }
}

} // verus!
