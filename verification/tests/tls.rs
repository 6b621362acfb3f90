use revproxy::context::Context;
use revproxy::handler::Handler;
use revproxy::tls::{create_config, LazyTlsHandler, SniHandler, TlsError, TlsHandler};

fn peer() -> Context {
    Context { secure: false, addr: Some("10.0.0.1".to_string()), alpn: None, server_name: None }
}

fn lazy() -> LazyTlsHandler<&'static str> {
    LazyTlsHandler::new(
        Some(true),
        "default",
        vec![
            SniHandler::new("example.com", "exact"),
            SniHandler::new("*.example.com", "wild"),
            SniHandler::new("a?.example.org", "single"),
            SniHandler::new("*", "any"),
        ],
    )
}

#[test]
fn first_matching_pattern_is_chosen() {
    let t = lazy();
    assert_eq!(t.select(Some("example.com")), Some(0));
    assert_eq!(t.select(Some("www.example.com")), Some(1));
    assert_eq!(t.select(Some("ab.example.org")), Some(2));
    assert_eq!(t.select(Some("abc.example.org")), Some(3));
    assert_eq!(*t.handler_for(Some("www.example.com")), "wild");
}

#[test]
fn no_server_name_means_default() {
    let t = lazy();
    assert_eq!(t.select(None), None);
    assert_eq!(*t.handler_for(None), "default");
}

#[test]
fn unmatched_name_means_default() {
    let t = LazyTlsHandler::new(None, "default", vec![SniHandler::new("example.com", "exact")]);
    assert!(!t.ktls);
    assert_eq!(t.select(Some("other.test")), None);
    assert_eq!(t.select(Some("Example.com")), None);
    assert_eq!(*t.handler_for(Some("other.test")), "default");
}

#[test]
fn lazy_handshake_marks_the_connection() {
    let t = lazy();
    let c = t.handle(peer(), Some(b"h2".to_vec()), Some("example.com".to_string())).unwrap();
    assert!(c.secure);
    assert_eq!(c.alpn.as_deref(), Some("h2"));
    assert_eq!(c.server_name.as_deref(), Some("example.com"));
    assert_eq!(c.addr.as_deref(), Some("10.0.0.1"));
    let bare = t.handle(peer(), None, None).unwrap();
    assert!(bare.secure && bare.alpn.is_none() && bare.server_name.is_none());
}

#[test]
fn eager_handshake_marks_the_connection() {
    let t = TlsHandler::new(Some(false), ());
    assert!(!t.ktls);
    let c = t.handle(peer(), Some(b"http/1.1".to_vec()), Some("a.test".to_string())).unwrap();
    assert!(c.secure);
    assert_eq!(c.alpn.as_deref(), Some("http/1.1"));
    assert_eq!(c.server_name.as_deref(), Some("a.test"));
    assert_eq!(c.addr.as_deref(), Some("10.0.0.1"));
    let bare = t.handle(peer(), None, None).unwrap();
    assert!(bare.secure && bare.alpn.is_none() && bare.server_name.is_none());
    assert!(TlsHandler::new(Some(true), ()).ktls);
    assert!(!TlsHandler::new(None, ()).ktls);
}

#[test]
fn secure_connection_stays_secure_behind_another_layer() {
    let mut marked = peer();
    marked.secure = true;
    assert!(TlsHandler::new(None, ()).handle(marked, None, None).unwrap().secure);
    let mut again = peer();
    again.secure = true;
    assert!(lazy().handle(again, None, None).unwrap().secure);
}

#[test]
fn protocol_that_is_no_text_is_fatal() {
    let t = lazy();
    assert_eq!(t.handle(peer(), Some(vec![0xff, 0xfe]), None).unwrap_err(), TlsError::InvalidProtocol);
    assert_eq!(
        TlsHandler::new(None, ()).handle(peer(), Some(vec![0xc3]), None).unwrap_err(),
        TlsError::InvalidProtocol
    );
}

#[test]
fn protocol_text_is_decoded() {
    let c = lazy().handle(peer(), Some("caf\u{e9}".as_bytes().to_vec()), None).unwrap();
    assert_eq!(c.alpn.as_deref(), Some("caf\u{e9}"));
}

#[test]
fn tls_layers_do_not_care_about_protocols() {
    assert_eq!(lazy().alpn_protocols(), None);
    assert_eq!(TlsHandler::new(None, ()).alpn_protocols(), None);
}

#[test]
fn server_settings_offer_what_the_handler_wants() {
    let s = create_config(&Some(vec!["h2".to_string(), "http/1.1".to_string()]), true);
    assert_eq!(s.alpn_protocols, vec![b"h2".to_vec(), b"http/1.1".to_vec()]);
    assert!(s.enable_secret_extraction);
    let none = create_config(&None, false);
    assert!(none.alpn_protocols.is_empty());
    assert!(!none.enable_secret_extraction);
}
