//! The service that passes requests on to an upstream server.

use vstd::prelude::*;
use vstd::string::StringExecFns;
use crate::client::Connection;
use crate::message::{copy_headers, first_value, header, is_valid_value, lines, valid_value, Body,
    BodyView, Header, Request, RequestView, Response, ResponseView, Version};
use crate::service::{HttpError, HttpErrorView};
use crate::text::{copy_opt, folded, same_folded};
use crate::uri::{assembled, outcome, Uri, UriView};

verus! {

/// Passes requests on to the upstream at `uri`.
#[derive(Debug)]
pub struct ProxyService {
    pub uri: Uri,
}

/// A request on its way upstream.
#[derive(Debug)]
pub struct Outbound {
    /// The head that is sent.
    pub request: Request,
    /// Whether the client asks for another protocol. If it does, the
    /// request goes upstream without body, and the body of the client's
    /// request is kept for the tunnel that follows a switch of protocols.
    pub upgrade: bool,
}

/// What an [`Outbound`] is, as a value of specifications.
pub struct OutboundView {
    pub request: RequestView,
    pub upgrade: bool,
}

impl View for Outbound {
    type V = OutboundView;

    open spec fn view(&self) -> OutboundView {
        OutboundView { request: self.request@, upgrade: self.upgrade }
    }
}

/// What becomes of an upstream response.
#[derive(Debug)]
pub enum Reply {
    /// The upstream switches protocols: the response goes to the client
    /// without body, and the two connections are joined into a tunnel.
    Tunnel(Response),
    /// The response goes to the client with its body passed through.
    Stream(Response),
}

/// What a [`Reply`] is, as a value of specifications.
pub enum ReplyView {
    Tunnel(ResponseView),
    Stream(ResponseView),
}

impl View for Reply {
    type V = ReplyView;

    open spec fn view(&self) -> ReplyView {
        match self {
            Reply::Tunnel(r) => ReplyView::Tunnel(r@),
            Reply::Stream(r) => ReplyView::Stream(r@),
        }
    }
}

/// The target of the request on an upstream connection. On HTTP/1 it is
/// path and query alone; on HTTP/2 it takes scheme and authority from the
/// upstream.
pub open spec fn outbound_target(upstream: UriView, http2: bool, uri: UriView) -> Result<
    UriView,
    HttpErrorView,
> {
    if http2 {
        assembled(
            UriView {
                scheme: upstream.scheme,
                authority: upstream.authority,
                path: uri.path,
                query: uri.query,
            },
        )
    } else {
        assembled(UriView { scheme: None, authority: None, path: uri.path, query: uri.query })
    }
}

/// The header lines that go upstream on HTTP/1: those of the client, and a
/// `host` line for the host given where the client sent none. A host that
/// cannot stand in a header line is refused, whether it is needed or not.
pub open spec fn with_host(headers: Seq<(Seq<char>, Seq<char>)>, host: Option<Seq<char>>) -> Result<
    Seq<(Seq<char>, Seq<char>)>,
    HttpErrorView,
> {
    match host {
        Some(h) => if !valid_value(h) {
            Err(HttpErrorView::String("failed to parse header value"@))
        } else if first_value(headers, "host"@) is Some {
            Ok(headers)
        } else {
            Ok(headers.push(("host"@, h)))
        },
        None => Ok(headers),
    }
}

/// The host that a request names: on HTTP/2 the host of its target, on any
/// other version its `host` line.
pub open spec fn named_host(req: RequestView) -> Option<Seq<char>> {
    if req.version == Version::Http2 {
        req.uri.host()
    } else {
        first_value(req.headers, "host"@)
    }
}

/// Whether the client asks for another protocol: its first `connection`
/// line says `upgrade`, in letters of either case.
pub open spec fn wants_upgrade(headers: Seq<(Seq<char>, Seq<char>)>) -> bool {
    match first_value(headers, "connection"@) {
        Some(v) => folded(v) == folded("upgrade"@),
        None => false,
    }
}

/// The request as it goes upstream.
pub open spec fn outbound(upstream: UriView, http2: bool, req: RequestView) -> Result<
    OutboundView,
    HttpErrorView,
> {
    match outbound_target(upstream, http2, req.uri) {
        Err(e) => Err(e),
        Ok(uri) => {
            let headers = if http2 {
                Ok(req.headers)
            } else {
                with_host(req.headers, named_host(req))
            };
            match headers {
                Err(e) => Err(e),
                Ok(hs) => Ok(
                    OutboundView {
                        request: RequestView {
                            method: req.method,
                            uri,
                            version: if http2 {
                                Version::Http2
                            } else {
                                Version::Http11
                            },
                            headers: hs,
                        },
                        upgrade: wants_upgrade(req.headers),
                    },
                ),
            }
        },
    }
}

/// What becomes of an upstream response with a body of at least `lower`
/// bytes. Status 101 starts a tunnel; the client gets status and header
/// lines either way.
pub open spec fn reply_for(
    status: u16,
    headers: Seq<(Seq<char>, Seq<char>)>,
    lower: u64,
) -> ReplyView {
    if status == 101 {
        ReplyView::Tunnel(ResponseView { status, headers, body: BodyView::Empty })
    } else {
        ReplyView::Stream(ResponseView { status, headers, body: BodyView::Upstream(lower) })
    }
}

impl ProxyService {
    /// A proxy to the upstream at `uri`.
    pub fn new(uri: Uri) -> (p: ProxyService)
        ensures
            p.uri == uri,
    {
        ProxyService { uri }
    }

    /// The target of a request on an upstream connection.
    pub fn target(&self, http2: bool, uri: &Uri) -> (r: Result<Uri, HttpError>)
        ensures
            outcome(r) == outbound_target(self.uri@, http2, uri@),
    {
        if http2 {
            Uri::from_parts(
                copy_opt(&self.uri.scheme),
                copy_opt(&self.uri.authority),
                uri.path.clone(),
                copy_opt(&uri.query),
            )
        } else {
            Uri::from_parts(None, None, uri.path.clone(), copy_opt(&uri.query))
        }
    }

    /// The header lines that go upstream on HTTP/1 for a client that names
    /// `host`.
    pub fn forward_headers(headers: &Vec<Header>, host: Option<&str>) -> (r: Result<
        Vec<Header>,
        HttpError,
    >)
        ensures
            match with_host(
                lines(headers@),
                match host {
                    Some(h) => Some(h@),
                    None => None,
                },
            ) {
                Ok(hs) => r matches Ok(out) && lines(out@) == hs,
                Err(e) => r matches Err(x) && x@ == e,
            },
    {
        let mut out = copy_headers(headers);
        match host {
            Some(h) => {
                if !is_valid_value(h) {
                    return Err(HttpError::message("failed to parse header value"));
                }
                if header(headers, "host").is_none() {
                    let ghost before = lines(out@);
                    out.push(Header { name: String::from_str("host"), value: String::from_str(h) });
                    assert(lines(out@) == before.push(("host"@, h@)));
                }
            },
            None => {},
        }
        Ok(out)
    }

    /// Whether the client asks for another protocol.
    pub fn is_upgrade(headers: &Vec<Header>) -> (r: bool)
        ensures
            r == wants_upgrade(lines(headers@)),
    {
        match header(headers, "connection") {
            Some(v) => same_folded(v.as_str(), "upgrade"),
            None => false,
        }
    }

    /// The request as it goes upstream on `conn`.
    pub fn request<S>(&self, conn: &Connection<S>, req: &Request) -> (r: Result<Outbound, HttpError>)
        ensures
            match outbound(self.uri@, conn is Http2, req@) {
                Ok(o) => r matches Ok(x) && x@ == o,
                Err(e) => r matches Err(x) && x@ == e,
            },
    {
        let http2 = match conn {
            Connection::Http2(_) => true,
            _ => false,
        };
        let uri = match self.target(http2, &req.uri) {
            Ok(u) => u,
            Err(e) => {
                return Err(e);
            },
        };
        let headers = if http2 {
            copy_headers(&req.headers)
        } else {
            let host = match req.version {
                Version::Http2 => req.uri.host(),
                _ => match header(&req.headers, "host") {
                    Some(h) => Some(h.clone()),
                    None => None,
                },
            };
            let forwarded = match &host {
                Some(h) => ProxyService::forward_headers(&req.headers, Some(h.as_str())),
                None => ProxyService::forward_headers(&req.headers, None),
            };
            match forwarded {
                Ok(hs) => hs,
                Err(e) => {
                    return Err(e);
                },
            }
        };
        let version = if http2 {
            Version::Http2
        } else {
            Version::Http11
        };
        Ok(
            Outbound {
                request: Request { method: req.method.clone(), uri, version, headers },
                upgrade: ProxyService::is_upgrade(&req.headers),
            },
        )
    }

    /// What becomes of an upstream response with a body of at least `lower`
    /// bytes.
    pub fn reply(status: u16, headers: Vec<Header>, lower: u64) -> (r: Reply)
        ensures
            r@ == reply_for(status, lines(headers@), lower),
    {
        if status == 101 {
            Reply::Tunnel(Response { status, headers, body: Body::Empty })
        } else {
            Reply::Stream(Response { status, headers, body: Body::Upstream(lower) })
        }
    }
}

} // verus!
