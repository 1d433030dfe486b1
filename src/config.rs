//! Well-known keys, names and intervals.
use vstd::prelude::*;

verus! {

/// Namespace where certificates live, unless the environment names another.
pub const DEFAULT_CERT_MANAGER_NAMESPACE: &'static str = "cert-manager";

/// Annotation on a certificate that lists the routes depending on it.
pub const CERT_ANNOTATION_KEY: &'static str = "cert-manager.io/routes";

/// Annotation on a route that names the issuer of its certificate.
pub const CLUSTER_ISSUER_ANNOTATION_KEY: &'static str = "cert-manager.io/cluster-issuer";

/// Annotation on a route that records when its TLS block was written.
pub const ROUTE_UPDATE_ANNOTATION_KEY: &'static str = "cert-manager.io/updates";

/// Finalizer that holds a managed route until its index entry is removed.
pub const FINALIZER: &'static str = "kubernetes";

/// Fields of the signed material.
pub const TLS_CRT: &'static str = "tls.crt";

pub const TLS_KEY: &'static str = "tls.key";

pub const CA_CRT: &'static str = "ca.crt";

/// Kind and group of the issuer that certificates refer to.
pub const ISSUER_KIND: &'static str = "ClusterIssuer";

pub const ISSUER_GROUP: &'static str = "cert-manager.io";

/// Size of the elliptic-curve key that certificates request.
pub const PRIVATE_KEY_SIZE: u32 = 256;

/// Seconds until the next check after a reconcile that went through.
pub const REQUEUE_DEFAULT_INTERVAL: u64 = 3600;

/// Seconds until the next check after a failure.
pub const REQUEUE_ERROR_DURATION_FAST: u64 = 5;

} // verus!
