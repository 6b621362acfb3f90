use revproxy::client::Connection;
use revproxy::message::{Body, Header, Request, Version};
use revproxy::proxy::{ProxyService, Reply};
use revproxy::service::HttpError;
use revproxy::uri::Uri;

fn upstream() -> ProxyService {
    ProxyService::new(Uri::parse("http://upstream:8080").unwrap())
}

fn headers(list: &[(&str, &str)]) -> Vec<Header> {
    list.iter().map(|(n, v)| Header { name: n.to_string(), value: v.to_string() }).collect()
}

fn inbound(version: Version, authority: Option<&str>, path: &str, query: Option<&str>, hs: &[(&str, &str)]) -> Request {
    Request {
        method: "POST".to_string(),
        uri: Uri {
            scheme: authority.map(|_| "https".to_string()),
            authority: authority.map(|a| a.to_string()),
            path: path.to_string(),
            query: query.map(|q| q.to_string()),
        },
        version,
        headers: headers(hs),
    }
}

fn pairs(hs: &[Header]) -> Vec<(&str, &str)> {
    hs.iter().map(|h| (h.name.as_str(), h.value.as_str())).collect()
}

#[test]
fn http1_upstream_gets_path_and_query_only() {
    let req = inbound(Version::Http11, Some("front.test"), "/a/b", Some("x=1"), &[("host", "front.test")]);
    let out = upstream().request(&Connection::Http1(()), &req).unwrap();
    assert_eq!(out.request.uri.to_string(), "/a/b?x=1");
    assert!(out.request.uri.scheme.is_none() && out.request.uri.authority.is_none());
    assert_eq!(out.request.version, Version::Http11);
    assert_eq!(out.request.method, "POST");
    assert!(!out.upgrade);
}

#[test]
fn http2_upstream_gets_scheme_and_authority_of_the_upstream() {
    let req = inbound(Version::Http11, None, "/a", None, &[("host", "front.test")]);
    let out = upstream().request(&Connection::Http2(()), &req).unwrap();
    assert_eq!(out.request.uri.to_string(), "http://upstream:8080/a");
    assert_eq!(out.request.version, Version::Http2);
    assert_eq!(pairs(&out.request.headers), vec![("host", "front.test")]);
}

#[test]
fn all_headers_are_copied() {
    let req = inbound(Version::Http11, None, "/", None, &[("host", "h"), ("x-a", "1"), ("x-a", "2"), ("accept", "*/*")]);
    let out = upstream().request(&Connection::Http1(()), &req).unwrap();
    assert_eq!(pairs(&out.request.headers), vec![("host", "h"), ("x-a", "1"), ("x-a", "2"), ("accept", "*/*")]);
}

#[test]
fn host_comes_from_the_authority_of_an_http2_request() {
    let req = inbound(Version::Http2, Some("front.test:8443"), "/", None, &[("accept", "*/*")]);
    let out = upstream().request(&Connection::Http1(()), &req).unwrap();
    assert_eq!(pairs(&out.request.headers), vec![("accept", "*/*"), ("host", "front.test")]);
}

#[test]
fn host_that_is_there_is_kept() {
    let req = inbound(Version::Http2, Some("front.test"), "/", None, &[("host", "named.test")]);
    let out = upstream().request(&Connection::Http1(()), &req).unwrap();
    assert_eq!(pairs(&out.request.headers), vec![("host", "named.test")]);
}

#[test]
fn http1_request_without_host_gets_none() {
    let req = inbound(Version::Http11, Some("front.test"), "/", None, &[]);
    let out = upstream().request(&Connection::Http1(()), &req).unwrap();
    assert!(out.request.headers.is_empty());
}

#[test]
fn http2_upstream_gets_no_host_line() {
    let req = inbound(Version::Http2, Some("front.test"), "/", None, &[]);
    let out = upstream().request(&Connection::Http2(()), &req).unwrap();
    assert!(out.request.headers.is_empty());
}

#[test]
fn forward_headers_checks_the_host() {
    let hs = headers(&[("a", "b")]);
    assert!(matches!(ProxyService::forward_headers(&hs, Some("bad\nhost")), Err(HttpError::String(_))));
    let with_host = headers(&[("host", "x")]);
    assert!(ProxyService::forward_headers(&with_host, Some("bad\u{0}")).is_err());
    assert_eq!(pairs(&ProxyService::forward_headers(&hs, Some("h")).unwrap()), vec![("a", "b"), ("host", "h")]);
    assert_eq!(pairs(&ProxyService::forward_headers(&hs, None).unwrap()), vec![("a", "b")]);
}

#[test]
fn upgrade_is_asked_for_in_either_case() {
    for value in ["upgrade", "Upgrade", "UPGRADE", "uPgRaDe"] {
        let asks = inbound(Version::Http11, None, "/ws", None, &[("connection", value), ("upgrade", "websocket")]);
        assert!(upstream().request(&Connection::Http1(()), &asks).unwrap().upgrade);
        assert!(upstream().request(&Connection::Http2(()), &asks).unwrap().upgrade);
        assert!(ProxyService::is_upgrade(&asks.headers));
    }
}

#[test]
fn other_connection_lines_ask_for_no_upgrade() {
    assert!(!ProxyService::is_upgrade(&headers(&[("connection", "keep-alive"), ("connection", "upgrade")])));
    assert!(!ProxyService::is_upgrade(&headers(&[("upgrade", "websocket")])));
    assert!(!ProxyService::is_upgrade(&headers(&[("connection", "upgrad")])));
    assert!(!ProxyService::is_upgrade(&headers(&[("connection", "upgrade ")])));
    assert!(!ProxyService::is_upgrade(&headers(&[("connection", "")])));
    assert!(!ProxyService::is_upgrade(&headers(&[])));
    let plain = inbound(Version::Http11, None, "/", None, &[("connection", "close")]);
    assert!(!upstream().request(&Connection::Http1(()), &plain).unwrap().upgrade);
}

#[test]
fn upstream_without_authority_cannot_take_http2() {
    let p = ProxyService::new(Uri { scheme: Some("http".to_string()), authority: None, path: "/".to_string(), query: None });
    let req = inbound(Version::Http11, None, "/", None, &[]);
    match p.request(&Connection::Http2(()), &req) {
        Err(HttpError::String(m)) => assert_eq!(m, "authority missing"),
        other => panic!("unexpected {:?}", other),
    }
    assert!(p.request(&Connection::Http1(()), &req).is_ok());
}

#[test]
fn request_without_path_cannot_go_to_http2() {
    let req = inbound(Version::Http11, None, "", None, &[]);
    match upstream().request(&Connection::Http2(()), &req) {
        Err(HttpError::String(m)) => assert_eq!(m, "path missing"),
        other => panic!("unexpected {:?}", other),
    }
}

#[test]
fn target_error_comes_before_header_error() {
    let req = inbound(Version::Http2, Some("front.test"), "", None, &[]);
    let p = ProxyService::new(Uri { scheme: None, authority: None, path: "/".to_string(), query: None });
    assert!(p.target(false, &req.uri).is_ok());
    assert!(upstream().target(true, &req.uri).is_err());
}

#[test]
fn switching_protocols_starts_a_tunnel() {
    match ProxyService::reply(101, headers(&[("upgrade", "websocket"), ("sec-websocket-accept", "k")]), 7) {
        Reply::Tunnel(r) => {
            assert_eq!(r.status, 101);
            assert_eq!(pairs(&r.headers), vec![("upgrade", "websocket"), ("sec-websocket-accept", "k")]);
            assert!(matches!(r.body, Body::Empty));
        }
        other => panic!("unexpected {:?}", other),
    }
}

#[test]
fn any_other_status_is_passed_through() {
    for status in [100u16, 200, 204, 301, 404, 500] {
        match ProxyService::reply(status, headers(&[("content-length", "7")]), 7) {
            Reply::Stream(r) => {
                assert_eq!(r.status, status);
                assert_eq!(pairs(&r.headers), vec![("content-length", "7")]);
                assert!(matches!(r.body, Body::Upstream(7)));
                assert_eq!(r.body.lower_bound(), 7);
            }
            other => panic!("unexpected {:?}", other),
        }
    }
}
