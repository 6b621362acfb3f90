//! What a configuration holds: listeners, the handlers behind them, and the
//! services and layers behind those.

use vstd::prelude::*;
use crate::authenticator::{issuer_url_error, AuthenticatorService};
use crate::file::FileService;
use crate::handler::{opt_texts, Http1Handler, Http2Handler, HttpHandler};
use crate::hello::HelloService;
use crate::listener::TcpListener;
use crate::proxy::ProxyService;
use crate::router::RouterService;
use crate::service::HttpError;
use crate::tls::{byte_strings, create_config, offered, LazyTlsHandler, ServerSettings, TlsHandler};
use crate::tunnel::TunnelHandler;
use crate::uri::{target_parts, Uri, UriView};

verus! {

/// A whole configuration.
#[derive(Debug)]
pub struct Settings {
    pub servers: Vec<Listener>,
}

/// One place at which connections are accepted.
#[derive(Debug)]
pub enum Listener {
    Socket(SocketListener),
}

/// A TCP socket and the handler for its connections.
#[derive(Debug)]
pub struct SocketListener {
    pub listen: String,
    pub handler: Handler,
}

/// A certificate for the server names that match `hostname`, and the handler
/// for connections that ask for one of them.
#[derive(Debug)]
pub struct SniHandler {
    pub hostname: String,
    pub certificate: String,
    pub key: String,
    pub handler: Box<Handler>,
}

/// A TLS layer: the default certificate and handler, and those for single
/// server names.
#[derive(Debug)]
pub struct Tls {
    pub certificate: String,
    pub key: String,
    pub ktls: Option<bool>,
    pub handler: Box<Handler>,
    pub sni: Vec<SniHandler>,
}

/// What is done with a connection.
#[derive(Debug)]
pub enum Handler {
    Http(Http),
    Http1(Http),
    Http2(Http),
    Tunnel(Tunnel),
    Tls(Tls),
    LazyTls(Tls),
}

/// A tunnel to a fixed address.
#[derive(Debug)]
pub struct Tunnel {
    pub target: String,
}

/// An HTTP endpoint: a service, and the layers put around it, innermost
/// first.
#[derive(Debug)]
pub struct Http {
    pub service: Service,
    pub layers: Option<Vec<Layer>>,
}

/// A layer around a service.
#[derive(Debug)]
pub enum Layer {
    Log(Log),
    Authenticator(Authenticator),
}

/// An access log written to the file at `path`.
#[derive(Debug)]
pub struct Log {
    pub path: String,
}

/// What answers a request.
#[derive(Debug)]
pub enum Service {
    Hello,
    Proxy(Proxy),
    File(Files),
    Router(Router),
}

/// A login through an OpenID Connect provider.
#[derive(Debug)]
pub struct Authenticator {
    pub discovery_url: String,
    pub client_id: String,
    pub client_secret: String,
}

/// A reverse proxy to the upstream at `uri`.
#[derive(Debug)]
pub struct Proxy {
    pub uri: String,
}

/// The files below `path`.
#[derive(Debug)]
pub struct Files {
    pub path: String,
}

/// Services chosen by the path of the request.
#[derive(Debug)]
pub struct Router {
    pub routes: Vec<Route>,
}

/// The service for the paths that begin with `path`.
#[derive(Debug)]
pub struct Route {
    pub path: String,
    pub service: Service,
}


/// A service as it is built from a configuration, with the layers that are
/// put around it.
#[derive(Debug)]
pub enum ServicePlan {
    Hello(HelloService),
    Proxy(ProxyService),
    File(FileService),
    Router(RouterService<ServicePlan>),
    /// The service within, and the path of the log that is written for it.
    Log(Box<ServicePlan>, String),
    /// The service within, and the login that guards it.
    Authenticator(Box<ServicePlan>, AuthenticatorService),
}

/// A handler behind a TLS layer, with what the layer needs to shake hands
/// for it: the files of certificate and key, and the settings of the server.
#[derive(Debug)]
pub struct Certified {
    pub certificate: String,
    pub key: String,
    pub config: ServerSettings,
    pub handler: HandlerPlan,
}

/// A handler as it is built from a configuration.
#[derive(Debug)]
pub enum HandlerPlan {
    Tunnel(TunnelHandler),
    Tls(TlsHandler<Box<Certified>>),
    LazyTls(LazyTlsHandler<Box<Certified>>),
    Http(ServicePlan),
    Http1(ServicePlan),
    Http2(ServicePlan),
}

/// A listener as it is built from a configuration.
#[derive(Debug)]
pub struct ListenerPlan {
    pub listener: TcpListener,
    pub handler: HandlerPlan,
}

/// The layers of an HTTP endpoint, innermost first.
pub open spec fn layers_of(layers: Option<Vec<Layer>>) -> Seq<Layer> {
    match layers {
        Some(v) => v@,
        None => Seq::<Layer>::empty(),
    }
}

/// Every address in the service can be read: that of each proxy is a
/// target.
pub open spec fn sound(service: Service) -> bool
    decreases service,
{
    match service {
        Service::Hello => true,
        Service::Proxy(p) => target_parts(p.uri@) is Ok,
        Service::File(_) => true,
        Service::Router(r) => forall|i: int|
            0 <= i < r.routes.len() ==> sound((#[trigger] r.routes@[i]).service),
    }
}

/// Every address in the layers can be read: that of each provider is a URL.
pub open spec fn layers_sound(layers: Seq<Layer>) -> bool {
    forall|i: int|
        0 <= i < layers.len() ==> (#[trigger] layers[i] matches Layer::Authenticator(a)
            ==> issuer_url_error(a.discovery_url@) is None)
}

/// The plan is what the service is built to, without layers: a service of
/// the same kind with the same settings, and for a router the same routes
/// in the same order.
pub open spec fn serves(plan: ServicePlan, service: Service) -> bool
    decreases plan,
{
    match (plan, service) {
        (ServicePlan::Hello(_), Service::Hello) => true,
        (ServicePlan::Proxy(p), Service::Proxy(s)) => target_parts(s.uri@) == Ok::<
            UriView,
            Seq<char>,
        >(p.uri@),
        (ServicePlan::File(f), Service::File(s)) => f.base()@ == s.path@,
        (ServicePlan::Router(r), Service::Router(s)) => {
            &&& r.routes.len() == s.routes.len()
            &&& forall|i: int|
                0 <= i < r.routes.len() ==> {
                    &&& (#[trigger] r.routes@[i]).route@ == s.routes@[i].path@
                    &&& serves(r.routes@[i].service, s.routes@[i].service)
                }
        },
        _ => false,
    }
}

/// The plan is what the service is built to with the layers around it: the
/// last layer outermost.
pub open spec fn layered(plan: ServicePlan, service: Service, layers: Seq<Layer>) -> bool
    decreases layers.len(),
{
    if layers.len() == 0 {
        serves(plan, service)
    } else {
        match (plan, layers.last()) {
            (ServicePlan::Log(inner, path), Layer::Log(l)) => path@ == l.path@ && layered(
                *inner,
                service,
                layers.drop_last(),
            ),
            (ServicePlan::Authenticator(inner, a), Layer::Authenticator(l)) => {
                &&& issuer_url_error(l.discovery_url@) is None
                &&& a.discovery_url@ == l.discovery_url@
                &&& a.client_id@ == l.client_id@
                &&& a.client_secret@ == l.client_secret@
                &&& a.session_cookie@ == "session"@
                &&& layered(*inner, service, layers.drop_last())
            },
            _ => false,
        }
    }
}

/// The protocols that a handler wants a TLS layer before it to offer.
pub open spec fn wanted(handler: Handler) -> Option<Seq<Seq<char>>> {
    match handler {
        Handler::Http(_) => Some(seq!["h2"@, "http/1.1"@]),
        Handler::Http1(_) => Some(seq!["http/1.1"@]),
        Handler::Http2(_) => Some(seq!["h2"@]),
        _ => None,
    }
}

/// Every address in the handler can be read.
pub open spec fn handler_sound(handler: Handler) -> bool
    decreases handler,
{
    match handler {
        Handler::Http(h) => sound(h.service) && layers_sound(layers_of(h.layers)),
        Handler::Http1(h) => sound(h.service) && layers_sound(layers_of(h.layers)),
        Handler::Http2(h) => sound(h.service) && layers_sound(layers_of(h.layers)),
        Handler::Tunnel(_) => true,
        Handler::Tls(t) => handler_sound(*t.handler),
        Handler::LazyTls(t) => handler_sound(*t.handler) && forall|i: int|
            0 <= i < t.sni.len() ==> handler_sound(*(#[trigger] t.sni@[i]).handler),
    }
}

/// The plan is what the handler is built to behind a TLS layer with the
/// files `certificate` and `key`: the server offers what the handler wants.
pub open spec fn certifies(
    plan: Certified,
    certificate: String,
    key: String,
    handler: Handler,
    ktls: bool,
) -> bool
    decreases plan, 0nat,
{
    &&& plan.certificate@ == certificate@
    &&& plan.key@ == key@
    &&& byte_strings(plan.config.alpn_protocols@) == offered(wanted(handler))
    &&& plan.config.enable_secret_extraction == ktls
    &&& handles(plan.handler, handler)
}

/// The plan is what the handler is built to: a handler of the same kind
/// with the same settings, around what its parts are built to.
pub open spec fn handles(plan: HandlerPlan, handler: Handler) -> bool
    decreases plan, 1nat,
{
    match (plan, handler) {
        (HandlerPlan::Tunnel(t), Handler::Tunnel(s)) => t.target()@ == s.target@,
        (HandlerPlan::Http(p), Handler::Http(h)) => layered(p, h.service, layers_of(h.layers)),
        (HandlerPlan::Http1(p), Handler::Http1(h)) => layered(p, h.service, layers_of(h.layers)),
        (HandlerPlan::Http2(p), Handler::Http2(h)) => layered(p, h.service, layers_of(h.layers)),
        (HandlerPlan::Tls(t), Handler::Tls(s)) => {
            &&& t.ktls == (s.ktls == Some(true))
            &&& certifies(*t.handler, s.certificate, s.key, *s.handler, t.ktls)
        },
        (HandlerPlan::LazyTls(t), Handler::LazyTls(s)) => {
            &&& t.ktls == (s.ktls == Some(true))
            &&& certifies(*t.handler, s.certificate, s.key, *s.handler, t.ktls)
            &&& t.sni.len() == s.sni.len()
            &&& forall|i: int|
                0 <= i < t.sni.len() ==> {
                    &&& (#[trigger] t.sni@[i]).hostname@ == s.sni@[i].hostname@
                    &&& certifies(
                        *t.sni@[i].handler,
                        s.sni@[i].certificate,
                        s.sni@[i].key,
                        *s.sni@[i].handler,
                        t.ktls,
                    )
                }
        },
        _ => false,
    }
}

impl crate::handler::Handler for HandlerPlan {
    /// The protocols that the handler wants a TLS layer before it to offer.
    fn alpn_protocols(&self) -> (r: Option<Vec<String>>)
        ensures
            opt_texts(r) == match *self {
                HandlerPlan::Http(_) => Some(seq!["h2"@, "http/1.1"@]),
                HandlerPlan::Http1(_) => Some(seq!["http/1.1"@]),
                HandlerPlan::Http2(_) => Some(seq!["h2"@]),
                _ => None,
            },
    {
        match self {
            HandlerPlan::Http(_) => crate::handler::Handler::alpn_protocols(&HttpHandler::new()),
            HandlerPlan::Http1(_) => crate::handler::Handler::alpn_protocols(&Http1Handler::new()),
            HandlerPlan::Http2(_) => crate::handler::Handler::alpn_protocols(&Http2Handler::new()),
            HandlerPlan::Tunnel(t) => crate::handler::Handler::alpn_protocols(t),
            HandlerPlan::Tls(t) => crate::handler::Handler::alpn_protocols(t),
            HandlerPlan::LazyTls(t) => crate::handler::Handler::alpn_protocols(t),
        }
    }
}

/// The service that a configuration describes, without layers.
fn build_bare(service: &Service) -> (r: Result<ServicePlan, HttpError>)
    ensures
        match r {
            Ok(plan) => serves(plan, *service),
            Err(_) => !sound(*service),
        },
    decreases service,
{
    match service {
        Service::Hello => Ok(ServicePlan::Hello(HelloService {})),
        Service::Proxy(p) => match Uri::parse(p.uri.as_str()) {
            Ok(uri) => Ok(ServicePlan::Proxy(ProxyService::new(uri))),
            Err(e) => Err(e),
        },
        Service::File(f) => Ok(ServicePlan::File(FileService::new(f.path.as_str()))),
        Service::Router(s) => {
            let mut routes: Vec<crate::router::Route<ServicePlan>> = Vec::new();
            let mut i: usize = 0;
            while i < s.routes.len()
                invariant
                    i <= s.routes.len(),
                    routes.len() == i,
                    *service == Service::Router(*s),
                    forall|j: int|
                        0 <= j < i ==> {
                            &&& (#[trigger] routes@[j]).route@ == s.routes@[j].path@
                            &&& serves(routes@[j].service, s.routes@[j].service)
                        },
                decreases s.routes.len() - i,
            {
                let route = &s.routes[i];
                proof {
                    assert(decreases_to!(*service => service->Router_0));
                    assert(decreases_to!(s.routes => s.routes[i as int]));
                }
                match build_bare(&route.service) {
                    Ok(plan) => {
                        routes.push(
                            crate::router::Route { route: route.path.clone(), service: plan },
                        );
                    },
                    Err(e) => {
                        assert(!sound(s.routes@[i as int].service));
                        return Err(e);
                    },
                }
                i += 1;
            }
            Ok(ServicePlan::Router(RouterService::new(routes)))
        },
    }
}

/// The service that a configuration describes, with the layers around it,
/// the first of them innermost. A router's own services have no layers.
/// Building fails where an address in the configuration cannot be read.
pub fn build_service(service: &Service, layers: Option<&Vec<Layer>>) -> (r: Result<
    ServicePlan,
    HttpError,
>)
    ensures
        match r {
            Ok(plan) => layered(
                plan,
                *service,
                match layers {
                    Some(v) => v@,
                    None => Seq::<Layer>::empty(),
                },
            ),
            Err(_) => !(sound(*service) && layers_sound(
                match layers {
                    Some(v) => v@,
                    None => Seq::<Layer>::empty(),
                },
            )),
        },
{
    let mut plan = match build_bare(service) {
        Ok(p) => p,
        Err(e) => {
            return Err(e);
        },
    };
    match layers {
        Some(v) => {
            let mut i: usize = 0;
            while i < v.len()
                invariant
                    i <= v.len(),
                    layers == Some(v),
                    layered(plan, *service, v@.take(i as int)),
                decreases v.len() - i,
            {
                proof {
                    assert(v@.take(i + 1).drop_last() == v@.take(i as int));
                    assert(v@.take(i + 1).last() == v@[i as int]);
                }
                match &v[i] {
                    Layer::Log(l) => {
                        plan = ServicePlan::Log(Box::new(plan), l.path.clone());
                    },
                    Layer::Authenticator(a) => {
                        match AuthenticatorService::new(
                            a.discovery_url.as_str(),
                            a.client_id.as_str(),
                            a.client_secret.as_str(),
                        ) {
                            Ok(auth) => {
                                plan = ServicePlan::Authenticator(Box::new(plan), auth);
                            },
                            Err(e) => {
                                assert(v@[i as int] is Authenticator);
                                return Err(e);
                            },
                        }
                    },
                }
                i += 1;
            }
            assert(v@.take(v.len() as int) == v@);
        },
        None => {},
    }
    Ok(plan)
}

fn build_http(http: &Http) -> (r: Result<ServicePlan, HttpError>)
    ensures
        match r {
            Ok(plan) => layered(plan, http.service, layers_of(http.layers)),
            Err(_) => !(sound(http.service) && layers_sound(layers_of(http.layers))),
        },
{
    match &http.layers {
        Some(v) => build_service(&http.service, Some(v)),
        None => build_service(&http.service, None),
    }
}

fn certify(certificate: &String, key: &String, handler: &Handler, ktls: bool) -> (r: Result<
    Box<Certified>,
    HttpError,
>)
    ensures
        match r {
            Ok(plan) => certifies(*plan, *certificate, *key, *handler, ktls),
            Err(_) => !handler_sound(*handler),
        },
    decreases handler, 1nat,
{
    match build_handler(handler) {
        Ok(plan) => {
            let alpn = crate::handler::Handler::alpn_protocols(&plan);
            let config = create_config(&alpn, ktls);
            Ok(
                Box::new(
                    Certified {
                        certificate: certificate.clone(),
                        key: key.clone(),
                        config,
                        handler: plan,
                    },
                ),
            )
        },
        Err(e) => Err(e),
    }
}

/// The handler that a configuration describes, with all that stands behind
/// it. Building fails where an address in the configuration cannot be read.
pub fn build_handler(handler: &Handler) -> (r: Result<HandlerPlan, HttpError>)
    ensures
        match r {
            Ok(plan) => handles(plan, *handler),
            Err(_) => !handler_sound(*handler),
        },
    decreases handler, 0nat,
{
    match handler {
        Handler::Tunnel(s) => Ok(HandlerPlan::Tunnel(TunnelHandler::new(s.target.clone()))),
        Handler::Http(h) => match build_http(h) {
            Ok(p) => Ok(HandlerPlan::Http(p)),
            Err(e) => Err(e),
        },
        Handler::Http1(h) => match build_http(h) {
            Ok(p) => Ok(HandlerPlan::Http1(p)),
            Err(e) => Err(e),
        },
        Handler::Http2(h) => match build_http(h) {
            Ok(p) => Ok(HandlerPlan::Http2(p)),
            Err(e) => Err(e),
        },
        Handler::Tls(s) => {
            let ktls = match s.ktls {
                Some(k) => k,
                None => false,
            };
            match certify(&s.certificate, &s.key, &*s.handler, ktls) {
                Ok(inner) => Ok(HandlerPlan::Tls(TlsHandler::new(s.ktls, inner))),
                Err(e) => Err(e),
            }
        },
        Handler::LazyTls(s) => {
            let ktls = match s.ktls {
                Some(k) => k,
                None => false,
            };
            let inner = match certify(&s.certificate, &s.key, &*s.handler, ktls) {
                Ok(inner) => inner,
                Err(e) => {
                    return Err(e);
                },
            };
            let mut sni: Vec<crate::tls::SniHandler<Box<Certified>>> = Vec::new();
            let mut i: usize = 0;
            while i < s.sni.len()
                invariant
                    i <= s.sni.len(),
                    sni.len() == i,
                    *handler == Handler::LazyTls(*s),
                    forall|j: int|
                        0 <= j < i ==> {
                            &&& (#[trigger] sni@[j]).hostname@ == s.sni@[j].hostname@
                            &&& certifies(
                                *sni@[j].handler,
                                s.sni@[j].certificate,
                                s.sni@[j].key,
                                *s.sni@[j].handler,
                                ktls,
                            )
                        },
                decreases s.sni.len() - i,
            {
                let entry = &s.sni[i];
                proof {
                    assert(decreases_to!(*handler => handler->LazyTls_0));
                    assert(decreases_to!(s.sni => s.sni[i as int]));
                }
                match certify(&entry.certificate, &entry.key, &*entry.handler, ktls) {
                    Ok(plan) => {
                        sni.push(crate::tls::SniHandler::new(entry.hostname.as_str(), plan));
                    },
                    Err(e) => {
                        assert(!handler_sound(*s.sni@[i as int].handler));
                        return Err(e);
                    },
                }
                i += 1;
            }
            Ok(HandlerPlan::LazyTls(LazyTlsHandler::new(s.ktls, inner, sni)))
        },
    }
}

/// The listener that a configuration describes, with its handler.
pub fn build_listener(listener: &Listener) -> (r: Result<ListenerPlan, HttpError>)
    ensures
        match (r, *listener) {
            (Ok(plan), Listener::Socket(s)) => plan.listener.listen@ == s.listen@ && handles(
                plan.handler,
                s.handler,
            ),
            (Err(_), Listener::Socket(s)) => !handler_sound(s.handler),
        },
{
    match listener {
        Listener::Socket(s) => match build_handler(&s.handler) {
            Ok(handler) => Ok(ListenerPlan { listener: TcpListener::new(s.listen.as_str()), handler }),
            Err(e) => Err(e),
        },
    }
}

} // verus!
