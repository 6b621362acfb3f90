use revproxy::context::Context;
use revproxy::handler::{Admission, Handler, Http1Handler, Http2Handler, HttpHandler, HyperService};
use revproxy::listener::TcpListener;
use revproxy::message::{Body, Request, Response, Version};
use revproxy::service::HttpError;
use revproxy::tunnel::TunnelHandler;
use revproxy::uri::Uri;

fn ctx(server_name: Option<&str>, alpn: Option<&str>) -> Context {
    Context {
        secure: true,
        addr: Some("10.0.0.1".to_string()),
        alpn: alpn.map(|s| s.to_string()),
        server_name: server_name.map(|s| s.to_string()),
    }
}

fn request(version: Version, authority: Option<&str>, path: &str) -> Request {
    Request {
        method: "GET".to_string(),
        uri: Uri {
            scheme: authority.map(|_| "https".to_string()),
            authority: authority.map(|a| a.to_string()),
            path: path.to_string(),
            query: None,
        },
        version,
        headers: Vec::new(),
    }
}

#[test]
fn listener_tells_the_peer_address() {
    let l = TcpListener::new("127.0.0.1:0");
    assert_eq!(l.listen, "127.0.0.1:0");
    let c = l.handle(Some("192.0.2.7".to_string()));
    assert_eq!(c.addr.as_deref(), Some("192.0.2.7"));
    assert!(!c.secure);
    assert!(c.alpn.is_none());
    assert!(c.server_name.is_none());
    assert!(l.handle(None).addr.is_none());
}

#[test]
fn default_context_knows_nothing() {
    let c = Context::default();
    assert!(!c.secure && c.addr.is_none() && c.alpn.is_none() && c.server_name.is_none());
}

#[test]
fn context_clone_keeps_all_fields() {
    let c = ctx(Some("example.com"), Some("h2")).clone();
    assert!(c.secure);
    assert_eq!(c.addr.as_deref(), Some("10.0.0.1"));
    assert_eq!(c.alpn.as_deref(), Some("h2"));
    assert_eq!(c.server_name.as_deref(), Some("example.com"));
}

#[test]
fn handlers_name_their_protocols() {
    assert_eq!(HttpHandler::new().alpn_protocols(), Some(vec!["h2".to_string(), "http/1.1".to_string()]));
    assert_eq!(Http1Handler::new().alpn_protocols(), Some(vec!["http/1.1".to_string()]));
    assert_eq!(Http2Handler::new().alpn_protocols(), Some(vec!["h2".to_string()]));
    assert_eq!(TunnelHandler::new("a:1".to_string()).alpn_protocols(), None);
}

#[test]
fn h2_goes_to_http2_and_all_else_to_http1() {
    let h = HttpHandler::new();
    assert_eq!(h.handle(&ctx(None, Some("h2"))), Version::Http2);
    assert_eq!(h.handle(&ctx(None, Some("http/1.1"))), Version::Http11);
    assert_eq!(h.handle(&ctx(None, Some("H2"))), Version::Http11);
    assert_eq!(h.handle(&ctx(None, None)), Version::Http11);
}

#[test]
fn other_authority_on_http2_is_misdirected() {
    let s = HyperService { ctx: ctx(Some("example.com"), Some("h2")) };
    match s.call(request(Version::Http2, Some("attacker.com"), "/")).unwrap() {
        Admission::Refuse(resp) => {
            assert_eq!(resp.status, 421);
            assert!(resp.headers.is_empty());
            assert!(matches!(resp.body, Body::Empty));
        }
        other => panic!("unexpected {:?}", other),
    }
}

#[test]
fn own_authority_on_http2_is_served() {
    let s = HyperService { ctx: ctx(Some("example.com"), Some("h2")) };
    match s.call(request(Version::Http2, Some("example.com:443"), "/a/../b")).unwrap() {
        Admission::Serve(req) => assert_eq!(req.uri.path, "/b"),
        other => panic!("unexpected {:?}", other),
    }
}

#[test]
fn http2_without_authority_needs_no_server_name() {
    let s = HyperService { ctx: ctx(None, Some("h2")) };
    assert!(matches!(s.call(request(Version::Http2, None, "/")).unwrap(), Admission::Serve(_)));
    let named = HyperService { ctx: ctx(Some("example.com"), Some("h2")) };
    assert!(matches!(named.call(request(Version::Http2, None, "/")).unwrap(), Admission::Refuse(_)));
}

#[test]
fn http1_is_never_misdirected() {
    let s = HyperService { ctx: ctx(Some("example.com"), None) };
    match s.call(request(Version::Http11, Some("attacker.com"), "/x/./y")).unwrap() {
        Admission::Serve(req) => assert_eq!(req.uri.path, "/x/y"),
        other => panic!("unexpected {:?}", other),
    }
    assert!(!HyperService::is_misdirected(Version::Http11, Some("a"), Some("b")));
    assert!(HyperService::is_misdirected(Version::Http2, Some("a"), Some("b")));
    assert!(HyperService::is_misdirected(Version::Http2, Some("a"), None));
    assert!(!HyperService::is_misdirected(Version::Http2, Some("a"), Some("a")));
}

#[test]
fn misdirection_is_checked_before_the_path() {
    let s = HyperService { ctx: ctx(Some("example.com"), Some("h2")) };
    let mut req = request(Version::Http2, Some("attacker.com"), "");
    req.uri.scheme = None;
    assert!(matches!(s.call(req).unwrap(), Admission::Refuse(_)));
}

#[test]
fn failed_service_gives_500_without_text() {
    let resp = HyperService::respond(Err(HttpError::String("secret detail".to_string())));
    assert_eq!(resp.status, 500);
    assert!(resp.headers.is_empty());
    assert!(matches!(resp.body, Body::Empty));
    let ok = HyperService::respond(Ok(Response { status: 204, headers: Vec::new(), body: Body::Empty }));
    assert_eq!(ok.status, 204);
}
