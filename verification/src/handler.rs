//! What a handler offers to the TLS layer before it, and the HTTP handlers:
//! which of them takes a connection, and what happens to each request
//! before and after a service sees it.

use vstd::prelude::*;
use vstd::string::StringExecFns;
use crate::context::Context;
use crate::message::{built, BodyView, Request, RequestView, Response, ResponseView, Version};
use crate::service::{HttpError, HttpErrorView};
use crate::text::{opt_text, same};
use crate::tunnel::TunnelHandler;
use crate::uri::{normalized, UriExt};

verus! {

/// The texts of `v` as values of specifications.
pub open spec fn texts(v: Seq<String>) -> Seq<Seq<char>> {
    Seq::new(v.len(), |i: int| v[i]@)
}

/// What an optional list of texts is, as a value of specifications.
pub open spec fn opt_texts(o: Option<Vec<String>>) -> Option<Seq<Seq<char>>> {
    match o {
        Some(v) => Some(texts(v@)),
        None => None,
    }
}

/// What every handler of connections offers.
pub trait Handler {
    /// The protocols that the handler wants a TLS layer before it to offer,
    /// the one it likes best first, or nothing where it does not care.
    fn alpn_protocols(&self) -> Option<Vec<String>>;
}

impl Handler for TunnelHandler {
    /// A tunnel passes bytes on and does not care.
    fn alpn_protocols(&self) -> (r: Option<Vec<String>>)
        ensures
            r is None,
    {
        None
    }
}

/// Serves HTTP/2 where that was settled on, and HTTP/1.1 everywhere else.
#[derive(Debug)]
pub struct HttpHandler {}

/// Serves HTTP/1.1.
#[derive(Debug)]
pub struct Http1Handler {}

/// Serves HTTP/2.
#[derive(Debug)]
pub struct Http2Handler {}

impl Handler for HttpHandler {
    fn alpn_protocols(&self) -> (r: Option<Vec<String>>)
        ensures
            opt_texts(r) == Some(seq!["h2"@, "http/1.1"@]),
    {
        let mut v: Vec<String> = Vec::new();
        v.push(String::from_str("h2"));
        v.push(String::from_str("http/1.1"));
        assert(texts(v@) == seq!["h2"@, "http/1.1"@]);
        Some(v)
    }
}

impl Handler for Http1Handler {
    fn alpn_protocols(&self) -> (r: Option<Vec<String>>)
        ensures
            opt_texts(r) == Some(seq!["http/1.1"@]),
    {
        let mut v: Vec<String> = Vec::new();
        v.push(String::from_str("http/1.1"));
        assert(texts(v@) == seq!["http/1.1"@]);
        Some(v)
    }
}

impl Handler for Http2Handler {
    fn alpn_protocols(&self) -> (r: Option<Vec<String>>)
        ensures
            opt_texts(r) == Some(seq!["h2"@]),
    {
        let mut v: Vec<String> = Vec::new();
        v.push(String::from_str("h2"));
        assert(texts(v@) == seq!["h2"@]);
        Some(v)
    }
}

/// The version that is served on a connection: HTTP/2 where the protocol
/// settled on is `h2`, HTTP/1.1 for any other and for none.
pub open spec fn served(alpn: Option<Seq<char>>) -> Version {
    if alpn == Some("h2"@) {
        Version::Http2
    } else {
        Version::Http11
    }
}

impl HttpHandler {
    /// A handler for both versions.
    pub fn new() -> HttpHandler {
        HttpHandler {}
    }

    /// The version that is served on a connection.
    pub fn handle(&self, ctx: &Context) -> (v: Version)
        ensures
            v == served(opt_text(ctx.alpn)),
    {
        match &ctx.alpn {
            Some(p) => if same(p.as_str(), "h2") {
                Version::Http2
            } else {
                Version::Http11
            },
            None => Version::Http11,
        }
    }
}

impl Http1Handler {
    /// A handler for HTTP/1.1.
    pub fn new() -> Http1Handler {
        Http1Handler {}
    }
}

impl Http2Handler {
    /// A handler for HTTP/2.
    pub fn new() -> Http2Handler {
        Http2Handler {}
    }
}

/// What is done with a request when it comes off a connection.
#[derive(Debug)]
pub enum Admission {
    /// The request is answered at once, and no service sees it.
    Refuse(Response),
    /// The request goes on to the service, its path in normal form.
    Serve(Request),
}

/// What an [`Admission`] is, as a value of specifications.
pub enum AdmissionView {
    Refuse(ResponseView),
    Serve(RequestView),
}

impl View for Admission {
    type V = AdmissionView;

    open spec fn view(&self) -> AdmissionView {
        match self {
            Admission::Refuse(r) => AdmissionView::Refuse(r@),
            Admission::Serve(r) => AdmissionView::Serve(r@),
        }
    }
}

/// A request on HTTP/2 is misdirected where the host it names is not the
/// server that the connection was made for.
pub open spec fn misdirected(
    version: Version,
    host: Option<Seq<char>>,
    server_name: Option<Seq<char>>,
) -> bool {
    version == Version::Http2 && host != server_name
}

/// The answer without header lines and without body.
pub open spec fn bare(status: u16) -> ResponseView {
    ResponseView {
        status,
        headers: Seq::<(Seq<char>, Seq<char>)>::empty(),
        body: BodyView::Empty,
    }
}

/// What is done with a request on a connection made for `server_name`. A
/// misdirected request is refused with status 421 before anything else is
/// looked at; any other goes on with its path in normal form.
pub open spec fn received(server_name: Option<Seq<char>>, req: RequestView) -> Result<
    AdmissionView,
    HttpErrorView,
> {
    if misdirected(req.version, req.uri.host(), server_name) {
        Ok(AdmissionView::Refuse(bare(421)))
    } else {
        match normalized(req.uri) {
            Ok(uri) => Ok(AdmissionView::Serve(RequestView { uri, ..req })),
            Err(e) => Err(e),
        }
    }
}

/// A request on HTTP/2 that names another host than the connection was made
/// for is answered with status 421, whatever else it holds.
pub proof fn lemma_misdirected_refused(server_name: Option<Seq<char>>, req: RequestView)
    requires
        req.version == Version::Http2,
        req.uri.host() != server_name,
    ensures
        received(server_name, req) == Ok::<AdmissionView, HttpErrorView>(
            AdmissionView::Refuse(bare(421)),
        ),
{
}

/// What the client gets for the outcome of a service: the answer, or status
/// 500 and nothing else where the service failed.
pub open spec fn answered(result: Result<ResponseView, HttpErrorView>) -> ResponseView {
    match result {
        Ok(r) => r,
        Err(_) => bare(500),
    }
}

/// The pipeline that every request on a connection goes through.
#[derive(Debug)]
pub struct HyperService {
    pub ctx: Context,
}

impl HyperService {
    /// Whether a request is misdirected.
    pub fn is_misdirected(version: Version, host: Option<&str>, server_name: Option<&str>) -> (r:
        bool)
        ensures
            r == misdirected(
                version,
                match host {
                    Some(h) => Some(h@),
                    None => None,
                },
                match server_name {
                    Some(n) => Some(n@),
                    None => None,
                },
            ),
    {
        match version {
            Version::Http2 => match (host, server_name) {
                (Some(h), Some(n)) => !same(h, n),
                (None, None) => false,
                _ => true,
            },
            _ => false,
        }
    }

    /// What is done with a request before a service sees it.
    pub fn call(&self, req: Request) -> (r: Result<Admission, HttpError>)
        ensures
            match received(opt_text(self.ctx.server_name), req@) {
                Ok(a) => r matches Ok(x) && x@ == a,
                Err(e) => r matches Err(x) && x@ == e,
            },
    {
        let host = req.uri.host();
        let refused = match (&host, &self.ctx.server_name) {
            (Some(h), Some(n)) => HyperService::is_misdirected(
                req.version,
                Some(h.as_str()),
                Some(n.as_str()),
            ),
            (Some(h), None) => HyperService::is_misdirected(req.version, Some(h.as_str()), None),
            (None, Some(n)) => HyperService::is_misdirected(req.version, None, Some(n.as_str())),
            (None, None) => HyperService::is_misdirected(req.version, None, None),
        };
        if refused {
            return Ok(Admission::Refuse(Response::empty(421)));
        }
        let Request { method, uri, version, headers } = req;
        match uri.normalize_path() {
            Ok(uri) => Ok(Admission::Serve(Request { method, uri, version, headers })),
            Err(e) => Err(e),
        }
    }

    /// What the client gets for the outcome of a service.
    pub fn respond(result: Result<Response, HttpError>) -> (r: Response)
        ensures
            r@ == answered(built(result)),
    {
        match result {
            Ok(r) => r,
            Err(_) => Response::empty(500),
        }
    }
}

} // verus!
