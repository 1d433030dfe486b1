//! One reconcile of one route, as a state machine. The caller performs each
//! action against the object store and hands the outcome back as an event,
//! until the machine asks to be run again after some seconds.
use crate::annotations::lookup;
use crate::certificate::{
    annotate_cert, annotated, cert_lists, create_certificate, is_cert_annotated,
    is_default_certificate, lemma_annotate_membership, Certificate,
};
use crate::codec::{lists, text_of};
use crate::config::CERT_ANNOTATION_KEY;
use crate::identity::well_formed;
use crate::config::{FINALIZER, REQUEUE_DEFAULT_INTERVAL, REQUEUE_ERROR_DURATION_FAST};
use crate::error::Error;
use crate::identity::Identity;
use crate::route::{
    cert_name, format_cert_name, format_secret_name, has_finalizers, is_valid, is_valid_route,
    issuer_of, route_id, secret_name, Route,
};
use crate::tls::{
    get_secret_tls_data, has_tls_fields, material_is_text, material_of, patch_for,
    populate_route_tls, route_tls_matches, tls_matches, RouteTlsPatch, SignedMaterial,
};
use vstd::prelude::*;

verus! {

/// Where a reconcile stands: what it last asked for, or that it is over.
#[derive(Clone, Copy, Debug, PartialEq, Eq, Structural)]
pub enum Stage {
    /// Nothing asked yet.
    Begin,
    /// Looking up the certificate to take an unmanaged route out of its index.
    Unmanaging,
    /// Writing the index without the route.
    Unindexing,
    /// Clearing the finalizers of a route being deleted.
    RemovingFinalizer,
    /// Looking up the certificate of a managed route.
    EnsuringCertificate,
    /// Creating the missing certificate.
    CreatingCertificate,
    /// Reading the signed material.
    ReadingSecret,
    /// Writing the signed material into the route.
    PopulatingTls,
    /// Adding the guard finalizer.
    AddingFinalizer,
    /// Listing all routes for the sweep.
    Listing,
    /// Looking up the certificate of the route under the sweep's cursor.
    SweepChecking,
    /// Reading that certificate again to add the route to its index.
    SweepReading,
    /// Writing the index with the route added.
    SweepIndexing,
    /// Over: the last action was a requeue.
    Finished,
}

/// What the caller is asked to do next.
#[derive(Clone, Debug, PartialEq, Eq)]
pub enum Action {
    /// Fetch the certificate `name`; answer with `Event::Certificate`.
    GetCertificate { name: String },
    /// Merge-patch the certificate's annotations; answer with `Event::Done`.
    PatchCertificateAnnotations { name: String, annotations: Vec<(String, String)> },
    /// Create the certificate; answer with `Event::Done`.
    CreateCertificate { certificate: Certificate },
    /// Fetch the data of the secret `name`; answer with `Event::Secret`.
    GetSecret { name: String },
    /// Merge-patch the route's TLS block and update trail; answer with `Event::Done`.
    PatchRouteTls { route: Identity, patch: RouteTlsPatch },
    /// Set the route's finalizers to the guard alone; answer with `Event::Done`.
    AddFinalizer { route: Identity },
    /// Clear the route's finalizers; answer with `Event::Done`.
    RemoveFinalizers { route: Identity },
    /// List all routes; answer with `Event::Routes`.
    ListRoutes,
    /// The reconcile is over: run it again after `seconds`.
    Requeue { seconds: u64 },
}

/// The outcome of the last action.
#[derive(Debug, PartialEq, Eq)]
pub enum Event {
    /// The reconcile begins.
    Start,
    Certificate(Result<Certificate, Error>),
    Secret(Result<Vec<(String, Vec<u8>)>, Error>),
    Done(Result<(), Error>),
    Routes(Result<Vec<Route>, Error>),
}

/// The state of one reconcile of `route`.
#[derive(Clone, Debug, PartialEq, Eq)]
pub struct Reconciler {
    /// The route being reconciled, as it was read.
    pub route: Route,
    /// Namespace where certificates live.
    pub namespace: String,
    pub stage: Stage,
    /// The route is being deleted and its finalizers are to be cleared.
    pub finalize: bool,
    /// The routes that the sweep goes through.
    pub routes: Vec<Route>,
    /// The sweep's position in `routes`.
    pub cursor: usize,
}

/// Deletion was requested and a finalizer still holds the route.
pub open spec fn wants_finalize(route: Route) -> bool {
    route.metadata.deletion_requested && has_finalizers(route)
}

/// The route is to be taken out of its certificate's index.
pub open spec fn unmanages(route: Route) -> bool {
    wants_finalize(route) || issuer_of(route) is None
}

/// The guard finalizer is on the route.
pub open spec fn has_guard(route: Route) -> bool {
    exists|i: int|
        0 <= i < route.metadata.finalizers@.len() && (#[trigger] route.metadata.finalizers@[i])@
            == FINALIZER@
}

/// The first valid route at or after `from`, or the length where none is.
pub open spec fn next_valid(routes: Seq<Route>, from: int) -> int
    decreases routes.len() - from,
{
    if from < 0 || from >= routes.len() {
        routes.len() as int
    } else if is_valid(routes[from]) {
        from
    } else {
        next_valid(routes, from + 1)
    }
}

pub open spec fn fails(stage: Stage, a: Action) -> bool {
    stage == Stage::Finished && a == Action::Requeue { seconds: REQUEUE_ERROR_DURATION_FAST }
}

pub open spec fn to_sweep(stage: Stage, a: Action) -> bool {
    stage == Stage::Listing && a == Action::ListRoutes
}

pub open spec fn gets_certificate(a: Action, name: Seq<char>) -> bool {
    a matches Action::GetCertificate { name: n } && n@ == name
}

/// The action writes `annotations`, updated for `route`, to the certificate `name`.
pub open spec fn patches_index(
    a: Action,
    name: Seq<char>,
    before: Certificate,
    route: Route,
    add: bool,
) -> bool {
    a matches Action::PatchCertificateAnnotations { name: n, annotations } && n@ == name
        && annotated(before.annotations@, route_id(route), add, annotations@)
}

/// After the index no longer lists the route: clear the finalizers where
/// the route is being deleted, else go on to the sweep.
pub open spec fn after_unmanage(finalize: bool, route: Route, stage: Stage, a: Action) -> bool {
    if finalize {
        stage == Stage::RemovingFinalizer && (a matches Action::RemoveFinalizers { route: r }
            && r@ == route_id(route))
    } else {
        to_sweep(stage, a)
    }
}

/// Once the TLS block is current: add the guard finalizer where it is
/// missing, else go on to the sweep.
pub open spec fn ensure_finalizer(route: Route, stage: Stage, a: Action) -> bool {
    if !has_guard(route) {
        stage == Stage::AddingFinalizer && (a matches Action::AddFinalizer { route: r } && r@
            == route_id(route))
    } else {
        to_sweep(stage, a)
    }
}

/// The sweep goes to the first valid route at or after `from` and looks up
/// its certificate; where none is left the reconcile is over.
pub open spec fn sweep_next(
    routes: Seq<Route>,
    from: int,
    stage: Stage,
    cursor: usize,
    a: Action,
) -> bool {
    let k = next_valid(routes, from);
    if k < routes.len() {
        stage == Stage::SweepChecking && cursor == k && gets_certificate(
            a,
            cert_name(routes[k].spec.host->0@),
        )
    } else {
        stage == Stage::Finished && a == Action::Requeue { seconds: REQUEUE_DEFAULT_INTERVAL }
    }
}

/// The first step, from the route alone.
pub open spec fn begin_step(route: Route, stage: Stage, a: Action) -> bool {
    if unmanages(route) {
        match route.spec.host {
            Some(h) => stage == Stage::Unmanaging && gets_certificate(a, cert_name(h@)),
            None => after_unmanage(wants_finalize(route), route, stage, a),
        }
    } else if is_valid(route) {
        stage == Stage::EnsuringCertificate && gets_certificate(
            a,
            cert_name(route.spec.host->0@),
        )
    } else {
        to_sweep(stage, a)
    }
}

/// What the signed material in `data` leads to.
pub open spec fn secret_step(route: Route, data: Seq<(String, Vec<u8>)>, stage: Stage, a: Action) -> bool {
    if !has_tls_fields(data) {
        fails(stage, a)
    } else {
        exists|m: SignedMaterial|
            #![trigger material_of(data, m)]
            material_of(data, m) && if tls_matches(route, m) {
                ensure_finalizer(route, stage, a)
            } else if !material_is_text(m) {
                fails(stage, a)
            } else {
                stage == Stage::PopulatingTls && (a matches Action::PatchRouteTls { route: r, patch }
                    && r@ == route_id(route) && patch_for(route, m, patch))
            }
    }
}

/// The step from `pre` on event `ev` to `post`, asking for `a`.
pub open spec fn transition(pre: Reconciler, ev: Event, post: Reconciler, a: Action) -> bool {
    let route = pre.route;
    let host = route.spec.host->0@;
    &&& post.route == pre.route
    &&& post.namespace == pre.namespace
    &&& pre.stage != Stage::Begin ==> post.finalize == pre.finalize
    &&& pre.stage != Stage::Listing ==> post.routes == pre.routes
    &&& match pre.stage {
        Stage::Begin => match ev {
            Event::Start => post.finalize == wants_finalize(route) && begin_step(
                route,
                post.stage,
                a,
            ),
            _ => fails(post.stage, a),
        },
        Stage::Unmanaging => match ev {
            Event::Certificate(Ok(c)) => if cert_lists(c, route_id(route)) {
                post.stage == Stage::Unindexing && patches_index(
                    a,
                    cert_name(host),
                    c,
                    route,
                    false,
                )
            } else {
                after_unmanage(pre.finalize, route, post.stage, a)
            },
            Event::Certificate(Err(_)) => after_unmanage(pre.finalize, route, post.stage, a),
            _ => fails(post.stage, a),
        },
        Stage::Unindexing => match ev {
            Event::Done(Ok(_)) => after_unmanage(pre.finalize, route, post.stage, a),
            _ => fails(post.stage, a),
        },
        Stage::RemovingFinalizer => match ev {
            Event::Done(Ok(_)) => to_sweep(post.stage, a),
            _ => fails(post.stage, a),
        },
        Stage::EnsuringCertificate => match ev {
            Event::Certificate(Ok(c)) => post.stage == Stage::ReadingSecret
                && (a matches Action::GetSecret { name } && name@ == c.secret_name@),
            Event::Certificate(Err(_)) => post.stage == Stage::CreatingCertificate
                && (a matches Action::CreateCertificate { certificate } && is_default_certificate(
                certificate,
                cert_name(host),
                host,
                issuer_of(route)->0,
                pre.namespace@,
            )),
            _ => fails(post.stage, a),
        },
        Stage::CreatingCertificate => match ev {
            Event::Done(Ok(_)) => post.stage == Stage::ReadingSecret
                && (a matches Action::GetSecret { name } && name@ == secret_name(host)),
            _ => fails(post.stage, a),
        },
        Stage::ReadingSecret => match ev {
            Event::Secret(Ok(data)) => secret_step(route, data@, post.stage, a),
            _ => fails(post.stage, a),
        },
        Stage::PopulatingTls => match ev {
            Event::Done(Ok(_)) => ensure_finalizer(route, post.stage, a),
            _ => fails(post.stage, a),
        },
        Stage::AddingFinalizer => match ev {
            Event::Done(Ok(_)) => to_sweep(post.stage, a),
            _ => fails(post.stage, a),
        },
        Stage::Listing => match ev {
            Event::Routes(Ok(rs)) => post.routes == rs && sweep_next(
                rs@,
                0,
                post.stage,
                post.cursor,
                a,
            ),
            _ => fails(post.stage, a) && post.routes == pre.routes,
        },
        Stage::SweepChecking => {
            let r = pre.routes@[pre.cursor as int];
            let name = cert_name(r.spec.host->0@);
            match ev {
                Event::Certificate(Ok(c)) => if cert_lists(c, route_id(r)) {
                    sweep_next(pre.routes@, pre.cursor + 1, post.stage, post.cursor, a)
                } else {
                    post.stage == Stage::SweepIndexing && post.cursor == pre.cursor
                        && patches_index(a, name, c, r, true)
                },
                Event::Certificate(Err(_)) => post.stage == Stage::SweepReading && post.cursor
                    == pre.cursor && gets_certificate(a, name),
                _ => fails(post.stage, a),
            }
        },
        Stage::SweepReading => {
            let r = pre.routes@[pre.cursor as int];
            match ev {
                Event::Certificate(Ok(c)) => post.stage == Stage::SweepIndexing && post.cursor
                    == pre.cursor && patches_index(a, cert_name(r.spec.host->0@), c, r, true),
                _ => fails(post.stage, a),
            }
        },
        Stage::SweepIndexing => match ev {
            Event::Done(Ok(_)) => sweep_next(
                pre.routes@,
                pre.cursor + 1,
                post.stage,
                post.cursor,
                a,
            ),
            _ => fails(post.stage, a),
        },
        Stage::Finished => fails(post.stage, a),
    }
}

fn failure() -> (r: (Stage, Action))
    ensures
        fails(r.0, r.1),
{
    (Stage::Finished, Action::Requeue { seconds: REQUEUE_ERROR_DURATION_FAST })
}

fn sweep_from(routes: &Vec<Route>, from: usize) -> (r: (Stage, usize, Action))
    requires
        from <= routes@.len(),
    ensures
        sweep_next(routes@, from as int, r.0, r.1, r.2),
        r.0 == Stage::SweepChecking ==> r.1 < routes@.len() && is_valid(routes@[r.1 as int]),
{
    let mut i: usize = from;
    while i < routes.len()
        invariant
            from <= i <= routes@.len(),
            next_valid(routes@, from as int) == next_valid(routes@, i as int),
        decreases routes.len() - i,
    {
        if is_valid_route(&routes[i]) {
            let name = format_cert_name(routes[i].spec.host.as_ref().unwrap().as_str());
            return (Stage::SweepChecking, i, Action::GetCertificate { name });
        }
        i = i + 1;
    }
    (Stage::Finished, i, Action::Requeue { seconds: REQUEUE_DEFAULT_INTERVAL })
}

impl Reconciler {
    /// The reconciler's own invariant: what each stage needs of the route
    /// and of the sweep's cursor.
    pub open spec fn wf(&self) -> bool {
        &&& (self.stage == Stage::Unmanaging || self.stage == Stage::Unindexing)
            ==> self.route.spec.host is Some
        &&& (self.stage == Stage::EnsuringCertificate || self.stage
            == Stage::CreatingCertificate || self.stage == Stage::ReadingSecret || self.stage
            == Stage::PopulatingTls) ==> is_valid(self.route)
        &&& (self.stage == Stage::SweepChecking || self.stage == Stage::SweepReading
            || self.stage == Stage::SweepIndexing) ==> self.cursor < self.routes@.len()
            && is_valid(self.routes@[self.cursor as int])
    }

    /// A reconcile of `route` that has not begun; certificates live in `namespace`.
    pub fn new(route: Route, namespace: String) -> (r: Reconciler)
        ensures
            r.wf(),
            r.stage == Stage::Begin,
            r.route == route,
            r.namespace == namespace,
            !r.finalize,
            r.routes@.len() == 0,
            r.cursor == 0,
    {
        Reconciler { route, namespace, stage: Stage::Begin, finalize: false, routes: Vec::new(), cursor: 0 }
    }

    fn begin(&self) -> (r: (bool, Stage, Action))
        ensures
            r.0 == wants_finalize(self.route),
            begin_step(self.route, r.1, r.2),
            (r.1 == Stage::Unmanaging) ==> self.route.spec.host is Some,
            (r.1 == Stage::EnsuringCertificate) ==> is_valid(self.route),
    {
        let route = &self.route;
        let finalize = route.metadata.deletion_requested && route.metadata.finalizers.len() > 0;
        let issuer_missing = crate::annotations::get_annotation(
            &route.metadata.annotations,
            crate::config::CLUSTER_ISSUER_ANNOTATION_KEY,
        ).is_none();
        if finalize || issuer_missing {
            match &route.spec.host {
                Some(h) => (finalize, Stage::Unmanaging, Action::GetCertificate { name: format_cert_name(h.as_str()) }),
                None => {
                    let (stage, a) = self.after_unmanage(finalize);
                    (finalize, stage, a)
                },
            }
        } else if is_valid_route(route) {
            let name = format_cert_name(route.spec.host.as_ref().unwrap().as_str());
            (finalize, Stage::EnsuringCertificate, Action::GetCertificate { name })
        } else {
            (finalize, Stage::Listing, Action::ListRoutes)
        }
    }

    fn after_unmanage(&self, finalize: bool) -> (r: (Stage, Action))
        ensures
            after_unmanage(finalize, self.route, r.0, r.1),
    {
        if finalize {
            (Stage::RemovingFinalizer, Action::RemoveFinalizers { route: self.route.identity() })
        } else {
            (Stage::Listing, Action::ListRoutes)
        }
    }

    fn ensure_finalizer(&self) -> (r: (Stage, Action))
        ensures
            ensure_finalizer(self.route, r.0, r.1),
    {
        if !self.route.has_finalizer(FINALIZER) {
            (Stage::AddingFinalizer, Action::AddFinalizer { route: self.route.identity() })
        } else {
            (Stage::Listing, Action::ListRoutes)
        }
    }

    fn on_secret(&self, data: &Vec<(String, Vec<u8>)>) -> (r: (Stage, Action))
        requires
            is_valid(self.route),
        ensures
            secret_step(self.route, data@, r.0, r.1),
    {
        match get_secret_tls_data(data) {
            Err(_) => failure(),
            Ok(m) => {
                if route_tls_matches(&self.route, &m) {
                    let r = self.ensure_finalizer();
                    assert(material_of(data@, m));
                    r
                } else {
                    match populate_route_tls(&self.route, &m) {
                        Ok(patch) => {
                            let r = (
                                Stage::PopulatingTls,
                                Action::PatchRouteTls { route: self.route.identity(), patch },
                            );
                            assert(material_of(data@, m));
                            r
                        },
                        Err(_) => {
                            assert(material_of(data@, m));
                            failure()
                        },
                    }
                }
            },
        }
    }

    /// Takes the outcome of the last action and says what to do next.
    pub fn step(&mut self, event: Event) -> (a: Action)
        requires
            old(self).wf(),
        ensures
            final(self).wf(),
            transition(*old(self), event, *final(self), a),
    {
        let ghost pre = *self;
        match self.stage {
            Stage::Begin => match event {
                Event::Start => {
                    let (finalize, stage, a) = self.begin();
                    self.finalize = finalize;
                    self.stage = stage;
                    a
                },
                _ => self.finish(),
            },
            Stage::Unmanaging => match event {
                Event::Certificate(Ok(c)) => {
                    if is_cert_annotated(&c, &self.route) {
                        let name = format_cert_name(self.route.spec.host.as_ref().unwrap().as_str());
                        let annotations = annotate_cert(&c, &self.route, false);
                        self.stage = Stage::Unindexing;
                        Action::PatchCertificateAnnotations { name, annotations }
                    } else {
                        let (stage, a) = self.after_unmanage(self.finalize);
                        self.stage = stage;
                        a
                    }
                },
                Event::Certificate(Err(_)) => {
                    let (stage, a) = self.after_unmanage(self.finalize);
                    self.stage = stage;
                    a
                },
                _ => self.finish(),
            },
            Stage::Unindexing => match event {
                Event::Done(Ok(_)) => {
                    let (stage, a) = self.after_unmanage(self.finalize);
                    self.stage = stage;
                    a
                },
                _ => self.finish(),
            },
            Stage::RemovingFinalizer | Stage::AddingFinalizer => match event {
                Event::Done(Ok(_)) => {
                    self.stage = Stage::Listing;
                    Action::ListRoutes
                },
                _ => self.finish(),
            },
            Stage::EnsuringCertificate => match event {
                Event::Certificate(Ok(c)) => {
                    self.stage = Stage::ReadingSecret;
                    Action::GetSecret { name: c.secret_name }
                },
                Event::Certificate(Err(_)) => {
                    let certificate = create_certificate(&self.route, &self.namespace);
                    self.stage = Stage::CreatingCertificate;
                    Action::CreateCertificate { certificate }
                },
                _ => self.finish(),
            },
            Stage::CreatingCertificate => match event {
                Event::Done(Ok(_)) => {
                    let name = format_secret_name(self.route.spec.host.as_ref().unwrap().as_str());
                    self.stage = Stage::ReadingSecret;
                    Action::GetSecret { name }
                },
                _ => self.finish(),
            },
            Stage::ReadingSecret => match event {
                Event::Secret(Ok(data)) => {
                    let (stage, a) = self.on_secret(&data);
                    self.stage = stage;
                    a
                },
                _ => self.finish(),
            },
            Stage::PopulatingTls => match event {
                Event::Done(Ok(_)) => {
                    let (stage, a) = self.ensure_finalizer();
                    self.stage = stage;
                    a
                },
                _ => self.finish(),
            },
            Stage::Listing => match event {
                Event::Routes(Ok(rs)) => {
                    self.routes = rs;
                    let (stage, cursor, a) = sweep_from(&self.routes, 0);
                    self.stage = stage;
                    self.cursor = cursor;
                    a
                },
                _ => self.finish(),
            },
            Stage::SweepChecking => match event {
                Event::Certificate(Ok(c)) => {
                    if is_cert_annotated(&c, &self.routes[self.cursor]) {
                        let len: usize = self.routes.len();
                        assert(self.cursor < len);
                        let (stage, cursor, a) = sweep_from(&self.routes, self.cursor + 1);
                        self.stage = stage;
                        self.cursor = cursor;
                        a
                    } else {
                        let a = self.index_current(&c);
                        self.stage = Stage::SweepIndexing;
                        a
                    }
                },
                Event::Certificate(Err(_)) => {
                    let name = format_cert_name(
                        self.routes[self.cursor].spec.host.as_ref().unwrap().as_str(),
                    );
                    self.stage = Stage::SweepReading;
                    Action::GetCertificate { name }
                },
                _ => self.finish(),
            },
            Stage::SweepReading => match event {
                Event::Certificate(Ok(c)) => {
                    let a = self.index_current(&c);
                    self.stage = Stage::SweepIndexing;
                    a
                },
                _ => self.finish(),
            },
            Stage::SweepIndexing => match event {
                Event::Done(Ok(_)) => {
                    let len: usize = self.routes.len();
                        assert(self.cursor < len);
                        let (stage, cursor, a) = sweep_from(&self.routes, self.cursor + 1);
                    self.stage = stage;
                    self.cursor = cursor;
                    a
                },
                _ => self.finish(),
            },
            Stage::Finished => self.finish(),
        }
    }

    /// The patch that adds the route under the sweep's cursor to `c`'s index.
    fn index_current(&self, c: &Certificate) -> (a: Action)
        requires
            self.cursor < self.routes@.len(),
            is_valid(self.routes@[self.cursor as int]),
        ensures
            patches_index(
                a,
                cert_name(self.routes@[self.cursor as int].spec.host->0@),
                *c,
                self.routes@[self.cursor as int],
                true,
            ),
    {
        let r = &self.routes[self.cursor];
        let name = format_cert_name(r.spec.host.as_ref().unwrap().as_str());
        let annotations = annotate_cert(c, r, true);
        Action::PatchCertificateAnnotations { name, annotations }
    }

    fn finish(&mut self) -> (a: Action)
        ensures
            fails(final(self).stage, a),
            final(self).route == old(self).route,
            final(self).namespace == old(self).namespace,
            final(self).finalize == old(self).finalize,
            final(self).routes == old(self).routes,
            final(self).cursor == old(self).cursor,
    {
        let (stage, a) = failure();
        self.stage = stage;
        a
    }
}

/// The sweep heals the index: once it has read the certificate of a valid
/// route that the index misses (or read it again after a failed lookup), it
/// writes the certificate's index with that route listed.
pub proof fn lemma_sweep_self_heal(pre: Reconciler, c: Certificate, post: Reconciler, a: Action)
    requires
        pre.wf(),
        pre.stage == Stage::SweepChecking || pre.stage == Stage::SweepReading,
        pre.stage == Stage::SweepChecking ==> !cert_lists(
            c,
            route_id(pre.routes@[pre.cursor as int]),
        ),
        well_formed(route_id(pre.routes@[pre.cursor as int])),
        transition(pre, Event::Certificate(Ok(c)), post, a),
    ensures
        post.stage == Stage::SweepIndexing,
        a matches Action::PatchCertificateAnnotations { name, annotations } && name@ == cert_name(
            pre.routes@[pre.cursor as int].spec.host->0@,
        ) && lists(
            text_of(lookup(annotations@, CERT_ANNOTATION_KEY@)),
            route_id(pre.routes@[pre.cursor as int]),
        ),
{
    let r = pre.routes@[pre.cursor as int];
    if let Action::PatchCertificateAnnotations { name, annotations } = a {
        lemma_annotate_membership(c.annotations@, annotations@, route_id(r), true);
    }
}

/// The sweep skips no valid route: from any position it goes to a valid
/// route with no valid route between, or ends where none is left. With
/// `lemma_sweep_self_heal`, every valid route that the listing holds is
/// visited and, where its certificate's index misses it, written into it.
pub proof fn lemma_sweep_skips_no_valid_route(routes: Seq<Route>, from: int)
    requires
        0 <= from <= routes.len(),
    ensures
        from <= next_valid(routes, from) <= routes.len(),
        next_valid(routes, from) < routes.len() ==> is_valid(routes[next_valid(routes, from)]),
        forall|k: int| from <= k < next_valid(routes, from) ==> !is_valid(#[trigger] routes[k]),
    decreases routes.len() - from,
{
    if from < routes.len() && !is_valid(routes[from]) {
        lemma_sweep_skips_no_valid_route(routes, from + 1);
    }
}

/// A route being deleted that a finalizer still holds is, within one
/// reconcile, taken out of its certificate's index and then cleared of its
/// finalizers: the machine looks up the certificate, writes the index
/// without the route where it is listed, and then removes the finalizers.
pub proof fn lemma_deletion_unindexes_then_finalizes(
    s0: Reconciler,
    s1: Reconciler,
    a1: Action,
    c: Certificate,
    s2: Reconciler,
    a2: Action,
    s3: Reconciler,
    a3: Action,
)
    requires
        s0.stage == Stage::Begin,
        s0.route.metadata.deletion_requested,
        has_finalizers(s0.route),
        s0.route.spec.host is Some,
        transition(s0, Event::Start, s1, a1),
        transition(s1, Event::Certificate(Ok(c)), s2, a2),
        cert_lists(c, route_id(s0.route)),
        transition(s2, Event::Done(Ok(())), s3, a3),
    ensures
        gets_certificate(a1, cert_name(s0.route.spec.host->0@)),
        a2 matches Action::PatchCertificateAnnotations { name, annotations } && name@ == cert_name(
            s0.route.spec.host->0@,
        ) && !lists(text_of(lookup(annotations@, CERT_ANNOTATION_KEY@)), route_id(s0.route)),
        a3 matches Action::RemoveFinalizers { route } && route@ == route_id(s0.route),
{
    if let Action::PatchCertificateAnnotations { name, annotations } = a2 {
        lemma_annotate_membership(c.annotations@, annotations@, route_id(s0.route), false);
    }
}

/// A route being deleted that its certificate does not list (or whose
/// certificate cannot be found) has its finalizers cleared with no write to
/// any index.
pub proof fn lemma_deletion_unlisted_finalizes(
    s0: Reconciler,
    s1: Reconciler,
    a1: Action,
    fetched: Result<Certificate, Error>,
    s2: Reconciler,
    a2: Action,
)
    requires
        s0.stage == Stage::Begin,
        s0.route.metadata.deletion_requested,
        has_finalizers(s0.route),
        s0.route.spec.host is Some,
        transition(s0, Event::Start, s1, a1),
        fetched matches Ok(c) ==> !cert_lists(c, route_id(s0.route)),
        transition(s1, Event::Certificate(fetched), s2, a2),
    ensures
        a2 matches Action::RemoveFinalizers { route } && route@ == route_id(s0.route),
{
}

/// A route being deleted that no finalizer holds does not take the deletion
/// branch: nothing marks its finalizers for removal, and where it still has
/// a hostname and an issuer directive it is handled as a managed route,
/// with no write to any index.
pub proof fn lemma_deletion_without_finalizer(s0: Reconciler, s1: Reconciler, a1: Action)
    requires
        s0.stage == Stage::Begin,
        s0.route.metadata.deletion_requested,
        !has_finalizers(s0.route),
        transition(s0, Event::Start, s1, a1),
    ensures
        !s1.finalize,
        is_valid(s0.route) ==> s1.stage == Stage::EnsuringCertificate,
        !(a1 is RemoveFinalizers),
        !(a1 is PatchCertificateAnnotations),
{
}

/// Seconds until a route is checked again after a reconcile failed outright.
pub fn error_policy(route: &Route, error: &Error) -> (r: u64)
    ensures
        r == REQUEUE_ERROR_DURATION_FAST,
{
    REQUEUE_ERROR_DURATION_FAST
}

} // verus!
