//! The Route resource: a hostname-routing rule with optional TLS material.
use crate::annotations::{get_annotation, lookup};
use crate::config::CLUSTER_ISSUER_ANNOTATION_KEY;
use crate::identity::{id_text, resource_to_string, IdView, Identity};
use vstd::prelude::*;

verus! {

#[derive(Clone, Debug, PartialEq, Eq)]
pub struct RouteMeta {
    pub name: String,
    pub namespace: String,
    pub annotations: Vec<(String, String)>,
    pub finalizers: Vec<String>,
    /// Deletion was requested (the deletion timestamp is set).
    pub deletion_requested: bool,
}

#[derive(Clone, Debug, PartialEq, Eq)]
pub struct Route {
    pub metadata: RouteMeta,
    pub spec: RouteSpec,
    pub status: Option<RouteStatus>,
}

#[derive(Clone, Debug, PartialEq, Eq)]
pub struct RouteSpec {
    pub alternate_backends: Option<Vec<RouteAlternateBackends>>,
    pub host: Option<String>,
    pub path: Option<String>,
    pub port: Option<RoutePort>,
    pub subdomain: Option<String>,
    pub tls: Option<RouteTls>,
    pub to: RouteTo,
    pub wildcard_policy: Option<RouteWildcardPolicy>,
}

#[derive(Clone, Debug, PartialEq, Eq)]
pub struct RouteAlternateBackends {
    pub kind: RouteAlternateBackendsKind,
    pub name: String,
    pub weight: Option<i32>,
}

#[derive(Clone, Copy, Debug, PartialEq, Eq)]
pub enum RouteAlternateBackendsKind {
    Service,
    KopiumEmpty,
}

/// A port given by number or by name.
#[derive(Clone, Debug, PartialEq, Eq)]
pub enum IntOrString {
    Int(i32),
    Str(String),
}

#[derive(Clone, Debug, PartialEq, Eq)]
pub struct RoutePort {
    pub target_port: IntOrString,
}

#[derive(Clone, Debug, PartialEq, Eq)]
pub struct RouteTls {
    pub ca_certificate: Option<String>,
    pub certificate: Option<String>,
    pub destination_ca_certificate: Option<String>,
    pub insecure_edge_termination_policy: Option<RouteTlsInsecureEdgeTerminationPolicy>,
    pub key: Option<String>,
    pub termination: RouteTlsTermination,
}

/// What happens to plain-text traffic on an edge-terminated route.
#[derive(Clone, Copy, Debug, PartialEq, Eq, Structural)]
pub enum RouteTlsInsecureEdgeTerminationPolicy {
    Allow,
    /// Plain-text traffic is refused (written `None` in the resource).
    Disabled,
    Redirect,
    KopiumEmpty,
}

#[derive(Clone, Copy, Debug, PartialEq, Eq, Structural)]
pub enum RouteTlsTermination {
    Edge,
    Reencrypt,
    Passthrough,
}

#[derive(Clone, Debug, PartialEq, Eq)]
pub struct RouteTo {
    pub kind: RouteToKind,
    pub name: String,
    pub weight: Option<i32>,
}

#[derive(Clone, Copy, Debug, PartialEq, Eq)]
pub enum RouteToKind {
    Service,
    KopiumEmpty,
}

#[derive(Clone, Copy, Debug, PartialEq, Eq)]
pub enum RouteWildcardPolicy {
    /// No wildcard (written `None` in the resource).
    Disabled,
    Subdomain,
    KopiumEmpty,
}

#[derive(Clone, Debug, PartialEq, Eq)]
pub struct RouteStatus {
    pub ingress: Option<Vec<RouteStatusIngress>>,
}

#[derive(Clone, Debug, PartialEq, Eq)]
pub struct RouteStatusIngress {
    pub conditions: Option<Vec<RouteStatusIngressConditions>>,
    pub host: Option<String>,
    pub router_canonical_hostname: Option<String>,
    pub router_name: Option<String>,
    pub wildcard_policy: Option<String>,
}

#[derive(Clone, Debug, PartialEq, Eq)]
pub struct RouteStatusIngressConditions {
    pub last_transition_time: Option<String>,
    pub message: Option<String>,
    pub reason: Option<String>,
    pub status: String,
    pub type_: String,
}

/// The route's identity as texts.
pub open spec fn route_id(route: Route) -> IdView {
    (route.metadata.namespace@, route.metadata.name@)
}

/// The issuer directive of a route, if it has one.
pub open spec fn issuer_of(route: Route) -> Option<Seq<char>> {
    lookup(route.metadata.annotations@, CLUSTER_ISSUER_ANNOTATION_KEY@)
}

/// A route is managed when it has a hostname and an issuer directive.
pub open spec fn is_valid(route: Route) -> bool {
    route.spec.host is Some && issuer_of(route) is Some
}

/// The route has at least one finalizer.
pub open spec fn has_finalizers(route: Route) -> bool {
    route.metadata.finalizers@.len() > 0
}

pub open spec fn cert_suffix() -> Seq<char> {
    seq!['-', 'c', 'e', 'r', 't']
}

pub open spec fn secret_suffix() -> Seq<char> {
    seq!['-', 't', 'l', 's']
}

/// The name of the certificate for a hostname.
pub open spec fn cert_name(hostname: Seq<char>) -> Seq<char> {
    hostname + cert_suffix()
}

/// The name of the secret that holds the signed material for a hostname.
pub open spec fn secret_name(hostname: Seq<char>) -> Seq<char> {
    hostname + secret_suffix()
}

/// Whether the route should be handled: it has a hostname and an issuer directive.
pub fn is_valid_route(route: &Route) -> (r: bool)
    ensures
        r == is_valid(*route),
{
    route.spec.host.is_some() && get_annotation(
        &route.metadata.annotations,
        CLUSTER_ISSUER_ANNOTATION_KEY,
    ).is_some()
}

/// `hostname-cert`.
pub fn format_cert_name(hostname: &str) -> (r: String)
    ensures
        r@ == cert_name(hostname@),
{
    let mut r = String::from_str(hostname);
    proof {
        reveal_strlit("-cert");
    }
    r.append("-cert");
    r
}

/// `hostname-tls`.
pub fn format_secret_name(hostname: &str) -> (r: String)
    ensures
        r@ == secret_name(hostname@),
{
    let mut r = String::from_str(hostname);
    proof {
        reveal_strlit("-tls");
    }
    r.append("-tls");
    r
}

impl Route {
    /// A route to a service named `test`, with a hostname and, where an
    /// issuer is given, one annotation `annotation_key` holding it.
    pub fn new_test_route(
        name: &String,
        namespace: &String,
        hostname: &String,
        cert_manager_issuer: Option<&String>,
        annotation_key: Option<&String>,
    ) -> (r: Route)
        requires
            cert_manager_issuer is Some ==> annotation_key is Some,
        ensures
            r.metadata.name@ == name@,
            r.metadata.namespace@ == namespace@,
            r.spec.host == Some(*hostname),
            r.spec.tls is None,
            r.metadata.finalizers@.len() == 0,
            !r.metadata.deletion_requested,
            match cert_manager_issuer {
                Some(issuer) => r.metadata.annotations@.len() == 1
                    && r.metadata.annotations@[0].0@ == annotation_key->0@
                    && r.metadata.annotations@[0].1@ == issuer@,
                None => r.metadata.annotations@.len() == 0,
            },
    {
        let mut annotations: Vec<(String, String)> = Vec::new();
        match cert_manager_issuer {
            Some(issuer) => {
                let key = annotation_key.unwrap();
                annotations.push((key.clone(), issuer.clone()));
            },
            None => {},
        }
        Route {
            metadata: RouteMeta {
                name: name.clone(),
                namespace: namespace.clone(),
                annotations,
                finalizers: Vec::new(),
                deletion_requested: false,
            },
            spec: RouteSpec {
                alternate_backends: None,
                host: Some(hostname.clone()),
                path: None,
                port: None,
                subdomain: None,
                tls: None,
                to: RouteTo { kind: RouteToKind::Service, name: String::from_str("test"), weight: None },
                wildcard_policy: None,
            },
            status: None,
        }
    }

    /// The route's identity.
    pub fn identity(&self) -> (r: Identity)
        ensures
            r@ == route_id(*self),
    {
        Identity { namespace: self.metadata.namespace.clone(), name: self.metadata.name.clone() }
    }

    /// `namespace/name`.
    pub fn to_text(&self) -> (r: String)
        ensures
            r@ == id_text(route_id(*self)),
    {
        resource_to_string(self.metadata.name.as_str(), self.metadata.namespace.as_str())
    }

    /// Whether `finalizer` is in the route's finalizer list.
    pub fn has_finalizer(&self, finalizer: &str) -> (r: bool)
        ensures
            r == exists|i: int|
                0 <= i < self.metadata.finalizers@.len()
                    && (#[trigger] self.metadata.finalizers@[i])@ == finalizer@,
    {
        let f = finalizer.to_owned();
        let mut i: usize = 0;
        while i < self.metadata.finalizers.len()
            invariant
                i <= self.metadata.finalizers@.len(),
                f@ == finalizer@,
                forall|j: int| 0 <= j < i ==> (#[trigger] self.metadata.finalizers@[j])@ != finalizer@,
            decreases self.metadata.finalizers.len() - i,
        {
            if self.metadata.finalizers[i] == f {
                return true;
            }
            i = i + 1;
        }
        false
    }
}

} // verus!
