use route_certs::certificate::{
    is_cert_annotated, routes_to_requeue, Certificate, CertificateIssuerRef,
    CertificatePrivateKey, CertificatePrivateKeyAlgorithm,
};
use route_certs::config::{
    CERT_ANNOTATION_KEY, CLUSTER_ISSUER_ANNOTATION_KEY, FINALIZER, REQUEUE_DEFAULT_INTERVAL,
    REQUEUE_ERROR_DURATION_FAST, ROUTE_UPDATE_ANNOTATION_KEY,
};
use route_certs::error::Error;
use route_certs::identity::Identity;
use route_certs::reconcile::{error_policy, Action, Event, Reconciler, Stage};
use route_certs::route::{Route, RouteTls};

/// An object store in memory that answers the reconciler's actions.
struct Store {
    routes: Vec<Route>,
    certificates: Vec<Certificate>,
    secrets: Vec<(String, Vec<(String, Vec<u8>)>)>,
    index_writes: usize,
}

impl Store {
    fn new() -> Store {
        Store { routes: Vec::new(), certificates: Vec::new(), secrets: Vec::new(), index_writes: 0 }
    }

    fn route(&self, id: &Identity) -> &Route {
        self.routes
            .iter()
            .find(|r| r.metadata.namespace == id.namespace && r.metadata.name == id.name)
            .unwrap()
    }

    fn route_mut(&mut self, id: &Identity) -> &mut Route {
        self.routes
            .iter_mut()
            .find(|r| r.metadata.namespace == id.namespace && r.metadata.name == id.name)
            .unwrap()
    }

    fn certificate(&self, name: &str) -> Option<&Certificate> {
        self.certificates.iter().find(|c| c.name == name)
    }

    fn index(&self, name: &str) -> Option<String> {
        let c = self.certificate(name)?;
        c.annotations.iter().find(|(k, _)| k == CERT_ANNOTATION_KEY).map(|(_, v)| v.clone())
    }

    fn answer(&mut self, action: &Action) -> Event {
        match action {
            Action::GetCertificate { name } => match self.certificate(name) {
                Some(c) => Event::Certificate(Ok(c.clone())),
                None => Event::Certificate(Err(Error::NotFound(name.clone()))),
            },
            Action::PatchCertificateAnnotations { name, annotations } => {
                self.index_writes += 1;
                match self.certificates.iter_mut().find(|c| &c.name == name) {
                    Some(c) => {
                        c.annotations = annotations.clone();
                        Event::Done(Ok(()))
                    }
                    None => Event::Done(Err(Error::NotFound(name.clone()))),
                }
            }
            Action::CreateCertificate { certificate } => {
                if self.certificate(&certificate.name).is_some() {
                    Event::Done(Err(Error::Conflict(certificate.name.clone())))
                } else {
                    self.certificates.push(certificate.clone());
                    Event::Done(Ok(()))
                }
            }
            Action::GetSecret { name } => match self.secrets.iter().find(|(n, _)| n == name) {
                Some((_, d)) => Event::Secret(Ok(d.clone())),
                None => Event::Secret(Err(Error::NotFound(name.clone()))),
            },
            Action::PatchRouteTls { route, patch } => {
                let r = self.route_mut(route);
                r.spec.tls = Some(RouteTls {
                    ca_certificate: Some(patch.ca_certificate.clone()),
                    certificate: Some(patch.certificate.clone()),
                    destination_ca_certificate: None,
                    insecure_edge_termination_policy: patch.insecure_edge_termination_policy,
                    key: Some(patch.key.clone()),
                    termination: patch.termination,
                });
                r.metadata.annotations.retain(|(k, _)| k != ROUTE_UPDATE_ANNOTATION_KEY);
                r.metadata
                    .annotations
                    .push((ROUTE_UPDATE_ANNOTATION_KEY.to_owned(), patch.updates.clone()));
                Event::Done(Ok(()))
            }
            Action::AddFinalizer { route } => {
                self.route_mut(route).metadata.finalizers = vec![FINALIZER.to_owned()];
                Event::Done(Ok(()))
            }
            Action::RemoveFinalizers { route } => {
                self.route_mut(route).metadata.finalizers = Vec::new();
                Event::Done(Ok(()))
            }
            Action::ListRoutes => Event::Routes(Ok(self.routes.clone())),
            Action::Requeue { .. } => panic!("a requeue needs no answer"),
        }
    }

    /// Runs one reconcile of the route `id`; the requeue delay and the stages passed.
    fn reconcile(&mut self, id: &Identity) -> (u64, Vec<Stage>) {
        let route = self.route(id).clone();
        let mut machine = Reconciler::new(route, "cert-manager".to_owned());
        let mut event = Event::Start;
        let mut stages = Vec::new();
        loop {
            let action = machine.step(event);
            stages.push(machine.stage);
            if let Action::Requeue { seconds } = action {
                return (seconds, stages);
            }
            event = self.answer(&action);
        }
    }
}

fn managed_route(ns: &str, name: &str, host: &str, issuer: &str) -> Route {
    Route::new_test_route(
        &name.to_owned(),
        &ns.to_owned(),
        &host.to_owned(),
        Some(&issuer.to_owned()),
        Some(&CLUSTER_ISSUER_ANNOTATION_KEY.to_owned()),
    )
}

fn signed(crt: &str, key: &str, ca: &str) -> Vec<(String, Vec<u8>)> {
    vec![
        ("tls.crt".to_owned(), crt.as_bytes().to_vec()),
        ("tls.key".to_owned(), key.as_bytes().to_vec()),
        ("ca.crt".to_owned(), ca.as_bytes().to_vec()),
    ]
}

#[test]
fn end_to_end_web_route() {
    let mut store = Store::new();
    store.routes.push(managed_route("ns", "web", "web.example.com", "my-issuer"));
    let id = Identity::new("ns", "web");

    let (delay, _) = store.reconcile(&id);
    assert_eq!(delay, REQUEUE_ERROR_DURATION_FAST);
    let cert = store.certificate("web.example.com-cert").unwrap().clone();
    assert_eq!(cert.secret_name, "web.example.com-tls");
    assert_eq!(cert.dns_names, Some(vec!["web.example.com".to_owned()]));
    assert_eq!(cert.issuer_ref.name, "my-issuer");
    assert_eq!(cert.issuer_ref.kind, Some("ClusterIssuer".to_owned()));
    assert_eq!(cert.namespace, "cert-manager");
    assert_eq!(cert.is_ca, Some(false));
    assert_eq!(
        cert.private_key,
        Some(CertificatePrivateKey { algorithm: Some(CertificatePrivateKeyAlgorithm::Ecdsa), size: Some(256) })
    );

    store.secrets.push(("web.example.com-tls".to_owned(), signed("CERT", "KEY", "CA")));
    let (delay, _) = store.reconcile(&id);
    assert_eq!(delay, REQUEUE_DEFAULT_INTERVAL);
    let route = store.route(&id).clone();
    let tls = route.spec.tls.clone().unwrap();
    assert_eq!(tls.certificate, Some("CERT".to_owned()));
    assert_eq!(tls.key, Some("KEY".to_owned()));
    assert_eq!(tls.ca_certificate, Some("CA".to_owned()));
    assert!(route.has_finalizer(FINALIZER));
    assert_eq!(store.index("web.example.com-cert"), Some("ns/web".to_owned()));

    let writes_before = store.index_writes;
    let route_before = store.route(&id).clone();
    let (delay, stages) = store.reconcile(&id);
    assert_eq!(delay, REQUEUE_DEFAULT_INTERVAL);
    assert_eq!(store.index_writes, writes_before);
    assert_eq!(store.route(&id), &route_before);
    assert!(!stages.contains(&Stage::PopulatingTls));
    assert!(!stages.contains(&Stage::AddingFinalizer));
    assert!(!stages.contains(&Stage::CreatingCertificate));
}

#[test]
fn sweep_heals_a_missing_index_entry() {
    let mut store = Store::new();
    store.routes.push(managed_route("ns", "web", "web.example.com", "my-issuer"));
    store.routes.push(managed_route("ns", "api", "web.example.com", "my-issuer"));
    let web = Identity::new("ns", "web");
    store.reconcile(&web);
    store.secrets.push(("web.example.com-tls".to_owned(), signed("C", "K", "A")));
    store.reconcile(&web);
    assert_eq!(store.index("web.example.com-cert"), Some("ns/web,ns/api".to_owned()));

    // A lost concurrent write: the index forgets `ns/api`.
    let cert = store.certificates.iter_mut().find(|c| c.name == "web.example.com-cert").unwrap();
    cert.annotations = vec![(CERT_ANNOTATION_KEY.to_owned(), "ns/web".to_owned())];
    let api_route = store.route(&Identity::new("ns", "api")).clone();
    assert!(!is_cert_annotated(store.certificate("web.example.com-cert").unwrap(), &api_route));

    store.reconcile(&web);
    assert!(is_cert_annotated(store.certificate("web.example.com-cert").unwrap(), &api_route));
    assert_eq!(store.index("web.example.com-cert"), Some("ns/web,ns/api".to_owned()));
}

#[test]
fn deletion_with_finalizer_unindexes_and_clears_finalizers() {
    let mut store = Store::new();
    store.routes.push(managed_route("ns", "web", "web.example.com", "my-issuer"));
    store.secrets.push(("web.example.com-tls".to_owned(), signed("C", "K", "A")));
    let web = Identity::new("ns", "web");
    store.reconcile(&web);
    assert_eq!(store.index("web.example.com-cert"), Some("ns/web".to_owned()));
    assert!(store.route(&web).has_finalizer(FINALIZER));

    // Deletion is requested; the sweep would re-add a valid route, so the
    // store drops it from listings as the cluster does once it is gone.
    store.route_mut(&web).metadata.deletion_requested = true;
    let route = store.route(&web).clone();
    let mut machine = Reconciler::new(route, "cert-manager".to_owned());
    let mut event = Event::Start;
    let mut delay = 0;
    loop {
        let action = machine.step(event);
        if let Action::Requeue { seconds } = action {
            delay = seconds;
            break;
        }
        if action == Action::ListRoutes {
            event = Event::Routes(Ok(Vec::new()));
        } else {
            event = store.answer(&action);
        }
    }
    assert_eq!(delay, REQUEUE_DEFAULT_INTERVAL);
    assert!(store.route(&web).metadata.finalizers.is_empty());
    assert_eq!(store.index("web.example.com-cert"), Some("".to_owned()));
}

#[test]
fn deletion_without_finalizer_writes_no_index() {
    let mut store = Store::new();
    let mut route = managed_route("ns", "web", "web.example.com", "my-issuer");
    route.metadata.deletion_requested = true;
    store.routes.push(route.clone());
    let mut machine = Reconciler::new(route, "cert-manager".to_owned());
    let action = machine.step(Event::Start);
    assert!(!machine.finalize);
    assert_eq!(machine.stage, Stage::EnsuringCertificate);
    assert_eq!(action, Action::GetCertificate { name: "web.example.com-cert".to_owned() });
}

#[test]
fn unmanaged_route_is_taken_out_of_the_index() {
    let mut store = Store::new();
    store.routes.push(managed_route("ns", "web", "web.example.com", "my-issuer"));
    store.secrets.push(("web.example.com-tls".to_owned(), signed("C", "K", "A")));
    let web = Identity::new("ns", "web");
    store.reconcile(&web);
    assert_eq!(store.index("web.example.com-cert"), Some("ns/web".to_owned()));

    store.route_mut(&web).metadata.annotations.clear();
    let (delay, stages) = store.reconcile(&web);
    assert_eq!(delay, REQUEUE_DEFAULT_INTERVAL);
    assert!(stages.contains(&Stage::Unindexing));
    assert_eq!(store.index("web.example.com-cert"), Some("".to_owned()));
}

#[test]
fn failures_ask_for_a_fast_retry() {
    let route = managed_route("ns", "web", "web.example.com", "my-issuer");
    let mut machine = Reconciler::new(route.clone(), "cert-manager".to_owned());
    machine.step(Event::Start);
    let a = machine.step(Event::Certificate(Err(Error::Transport("down".to_owned()))));
    assert!(matches!(a, Action::CreateCertificate { .. }));
    let a = machine.step(Event::Done(Err(Error::Conflict("exists".to_owned()))));
    assert_eq!(a, Action::Requeue { seconds: REQUEUE_ERROR_DURATION_FAST });
    assert_eq!(machine.stage, Stage::Finished);

    let mut machine = Reconciler::new(route.clone(), "cert-manager".to_owned());
    let a = machine.step(Event::Routes(Ok(Vec::new())));
    assert_eq!(a, Action::Requeue { seconds: REQUEUE_ERROR_DURATION_FAST });

    let mut machine = Reconciler::new(route, "cert-manager".to_owned());
    machine.step(Event::Start);
    machine.step(Event::Certificate(Ok(Certificate::new_default(
        &"web.example.com-cert".to_owned(),
        &"web.example.com".to_owned(),
        &"my-issuer".to_owned(),
        &"cert-manager".to_owned(),
    ))));
    let a = machine.step(Event::Secret(Ok(vec![("tls.crt".to_owned(), b"C".to_vec())])));
    assert_eq!(a, Action::Requeue { seconds: REQUEUE_ERROR_DURATION_FAST });
    assert_eq!(error_policy(&machine.route, &Error::Transport("x".to_owned())), REQUEUE_ERROR_DURATION_FAST);
}

#[test]
fn certificate_changes_requeue_each_listed_route() {
    let mut cert = Certificate::new_default(
        &"h-cert".to_owned(),
        &"h".to_owned(),
        &"i".to_owned(),
        &"cert-manager".to_owned(),
    );
    assert_eq!(routes_to_requeue(&cert), Vec::<Identity>::new());
    cert.annotations.push((CERT_ANNOTATION_KEY.to_owned(), "a/b,bad,c/d".to_owned()));
    assert_eq!(
        routes_to_requeue(&cert),
        vec![Identity::new("a", "b"), Identity::new("", ""), Identity::new("c", "d")]
    );
    assert_eq!(cert.to_text(), "cert-manager/h-cert");
    assert_eq!(
        cert.issuer_ref,
        CertificateIssuerRef { name: "i".to_owned(), kind: Some("ClusterIssuer".to_owned()), group: Some("cert-manager.io".to_owned()) }
    );
}

#[test]
fn store_errors_map_by_status() {
    assert_eq!(Error::from_status(404, "m".to_owned()), Error::NotFound("m".to_owned()));
    assert_eq!(Error::from_status(409, "m".to_owned()), Error::Conflict("m".to_owned()));
    assert_eq!(Error::from_status(500, "m".to_owned()), Error::Transport("m".to_owned()));
}
