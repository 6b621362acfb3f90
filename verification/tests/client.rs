use revproxy::client::{Client, Connection, Dial, Pool};
use revproxy::message::Version;
use revproxy::service::HttpError;
use revproxy::uri::Uri;

type C = Client<u32>;

fn uri(text: &str) -> Uri {
    Uri::parse(text).unwrap()
}

fn message(r: Result<Dial, HttpError>) -> String {
    match r {
        Err(HttpError::String(m)) => m,
        other => panic!("unexpected {:?}", other),
    }
}

fn id(c: &Connection<u32>) -> u32 {
    match c {
        Connection::Http1(n) => *n,
        Connection::Http2(n) => *n,
    }
}

#[test]
fn http_goes_to_port_80() {
    match C::connect(&uri("http://upstream/x")).unwrap() {
        Dial::Tcp { address } => assert_eq!(address, "upstream:80"),
        other => panic!("unexpected {:?}", other),
    }
}

#[test]
fn https_goes_to_port_443_with_the_host_as_server_name() {
    match C::connect(&uri("https://upstream.test/")).unwrap() {
        Dial::Tls { address, host } => {
            assert_eq!(address, "upstream.test:443");
            assert_eq!(host, "upstream.test");
        }
        other => panic!("unexpected {:?}", other),
    }
}

#[test]
fn named_port_is_used() {
    match C::connect(&uri("http://10.1.2.3:8080")).unwrap() {
        Dial::Tcp { address } => assert_eq!(address, "10.1.2.3:8080"),
        other => panic!("unexpected {:?}", other),
    }
    match C::connect(&uri("https://user@[::1]:65535/")).unwrap() {
        Dial::Tls { address, host } => {
            assert_eq!(address, "[::1]:65535");
            assert_eq!(host, "[::1]");
        }
        other => panic!("unexpected {:?}", other),
    }
}

#[test]
fn unix_takes_the_path_for_a_socket() {
    match C::connect(&uri("unix://localhost/var/run/app.sock")).unwrap() {
        Dial::Unix { path } => assert_eq!(path, "/var/run/app.sock"),
        other => panic!("unexpected {:?}", other),
    }
}

#[test]
fn missing_scheme_is_an_error() {
    assert_eq!(message(C::connect(&uri("/only/a/path"))), "No scheme specified");
    assert_eq!(message(C::dial_with(None, "/", Some("h".to_string()), None)), "No scheme specified");
}

#[test]
fn other_scheme_is_an_error() {
    assert_eq!(message(C::connect(&uri("ftp://upstream/"))), "Invalid scheme");
    assert_eq!(message(C::dial_with(Some("HTTP"), "/", Some("h".to_string()), None)), "Invalid scheme");
}

#[test]
fn missing_host_is_an_error() {
    assert_eq!(message(C::dial_with(Some("http"), "/", None, None)), "No host specified");
    assert_eq!(message(C::dial_with(Some("https"), "/", None, Some(1))), "No host specified");
    assert!(C::dial_with(Some("unix"), "/s", None, None).is_ok());
}

#[test]
fn only_tls_with_h2_speaks_http2() {
    let tls = Dial::Tls { address: "a:443".to_string(), host: "a".to_string() };
    let tcp = Dial::Tcp { address: "a:80".to_string() };
    let unix = Dial::Unix { path: "/s".to_string() };
    assert_eq!(C::protocol(&tls, Some(&b"h2".to_vec())), Version::Http2);
    assert_eq!(C::protocol(&tls, Some(&b"http/1.1".to_vec())), Version::Http11);
    assert_eq!(C::protocol(&tls, Some(&b"h2c".to_vec())), Version::Http11);
    assert_eq!(C::protocol(&tls, Some(&Vec::new())), Version::Http11);
    assert_eq!(C::protocol(&tls, None), Version::Http11);
    assert_eq!(C::protocol(&tcp, Some(&b"h2".to_vec())), Version::Http11);
    assert_eq!(C::protocol(&unix, None), Version::Http11);
}

#[test]
fn empty_pool_lends_nothing() {
    let mut c = C::new();
    assert!(c.get_connection(&uri("http://a/"), |_| true).is_none());
}

#[test]
fn released_connection_is_lent_again() {
    let mut c = C::new();
    let u = uri("http://a/");
    let loan = C::reserve(&u, Connection::Http1(1));
    assert_eq!(loan.uri, "http://a");
    c.release(loan);
    let again = c.get_connection(&u, |_| true).unwrap();
    assert_eq!(id(&again.conn), 1);
    assert!(c.get_connection(&u, |_| true).is_none());
}

#[test]
fn connections_are_lent_in_the_order_of_their_return() {
    let mut c = C::new();
    let u = uri("http://a/");
    for n in [1, 2, 3] {
        c.release(C::reserve(&u, Connection::Http2(n)));
    }
    assert_eq!(id(&c.get_connection(&u, |_| true).unwrap().conn), 1);
    c.release(C::reserve(&u, Connection::Http2(4)));
    assert_eq!(id(&c.get_connection(&u, |_| true).unwrap().conn), 2);
    assert_eq!(id(&c.get_connection(&u, |_| true).unwrap().conn), 3);
    assert_eq!(id(&c.get_connection(&u, |_| true).unwrap().conn), 4);
}

#[test]
fn dead_connections_are_thrown_away() {
    let mut c = C::new();
    let u = uri("http://a/");
    for n in [1, 2, 3, 4] {
        c.release(C::reserve(&u, Connection::Http1(n)));
    }
    let live = |conn: &Connection<u32>| id(conn) >= 3;
    assert_eq!(id(&c.get_connection(&u, live).unwrap().conn), 3);
    assert_eq!(id(&c.get_connection(&u, |_| true).unwrap().conn), 4);
    assert!(c.get_connection(&u, |_| true).is_none());
}

#[test]
fn pool_without_live_connection_is_emptied() {
    let mut c = C::new();
    let u = uri("http://a/");
    for n in [1, 2] {
        c.release(C::reserve(&u, Connection::Http1(n)));
    }
    assert!(c.get_connection(&u, |_| false).is_none());
    assert!(c.get_connection(&u, |_| true).is_none());
}

#[test]
fn liveness_is_asked_front_to_back_until_yes() {
    let mut p: Pool<u32> = Pool::new();
    for n in [1, 2, 3, 4] {
        p.release("k", n);
    }
    let asked = std::cell::RefCell::new(Vec::new());
    let got = p.checkout("k", |n: &u32| {
        asked.borrow_mut().push(*n);
        *n == 2
    });
    assert_eq!(got, Some(2));
    assert_eq!(*asked.borrow(), vec![1, 2]);
}

#[test]
fn each_upstream_has_its_own_queue() {
    let mut c = C::new();
    let a = uri("http://a/");
    let b = uri("http://b/");
    c.release(C::reserve(&a, Connection::Http1(1)));
    c.release(C::reserve(&b, Connection::Http1(2)));
    c.release(C::reserve(&a, Connection::Http1(3)));
    assert_eq!(id(&c.get_connection(&b, |_| true).unwrap().conn), 2);
    assert!(c.get_connection(&b, |_| true).is_none());
    assert!(c.get_connection(&b, |_| false).is_none());
    assert_eq!(id(&c.get_connection(&a, |_| true).unwrap().conn), 1);
    assert_eq!(id(&c.get_connection(&a, |_| true).unwrap().conn), 3);
}

#[test]
fn two_requests_in_a_row_use_one_connection() {
    let mut c = C::new();
    let u = uri("http://upstream:8080");
    assert!(c.get_connection(&u, |_| true).is_none());
    let first = C::reserve(&u, Connection::Http1(7));
    c.release(first);
    let second = c.get_connection(&u, |_| true).unwrap();
    assert_eq!(id(&second.conn), 7);
    c.release(second);
    assert_eq!(id(&c.get_connection(&u, |_| true).unwrap().conn), 7);
}

#[test]
fn pool_is_keyed_by_scheme_and_authority() {
    assert_eq!(C::key(&uri("http://upstream:8080/a/b?c=d")), "http://upstream:8080");
    assert_eq!(C::key(&uri("https://user@host/")), "https://user@host");
    assert_eq!(C::key(&uri("unix://localhost/var/run/app.sock")), "unix://localhost");
    assert_eq!(C::key(&uri("/only/a/path")), "");
    assert_eq!(C::key(&uri("example.com:443")), "example.com:443");
}

#[test]
fn another_path_at_the_same_upstream_reuses_the_connection() {
    let mut c = C::new();
    c.release(C::reserve(&uri("http://upstream/token"), Connection::Http1(9)));
    let again = c.get_connection(&uri("http://upstream/userinfo?x=1"), |_| true).unwrap();
    assert_eq!(id(&again.conn), 9);
    assert_eq!(again.uri, "http://upstream");
    assert!(c.get_connection(&uri("http://upstream/token"), |_| true).is_none());
}

#[test]
fn another_scheme_or_authority_is_another_upstream() {
    let mut c = C::new();
    c.release(C::reserve(&uri("http://upstream/"), Connection::Http1(1)));
    assert!(c.get_connection(&uri("https://upstream/"), |_| true).is_none());
    assert!(c.get_connection(&uri("http://upstream:81/"), |_| true).is_none());
    assert!(c.get_connection(&uri("http://other/"), |_| true).is_none());
    assert_eq!(id(&c.get_connection(&uri("http://upstream/x"), |_| true).unwrap().conn), 1);
}

#[test]
fn each_upstream_keeps_one_entry() {
    let mut p: Pool<u32> = Pool::new();
    for n in 0..6 {
        p.release(if n % 2 == 0 { "a" } else { "b" }, n);
    }
    assert_eq!(p.checkout("a", |_| false), None);
    p.release("a", 9);
    assert_eq!(p.entries.len(), 2);
    assert_eq!(p.entries[0].key, "a");
    assert_eq!(p.entries[1].key, "b");
    assert_eq!(p.checkout("a", |_| true), Some(9));
    assert_eq!(p.checkout("b", |_| true), Some(1));
}
