use revproxy::authenticator::{AuthenticatorService, LoginRequest, Session, Step};
use revproxy::context::Context;
use revproxy::message::{Body, Header, Request, Version};
use revproxy::service::HttpError;
use revproxy::uri::Uri;

fn layer() -> AuthenticatorService {
    AuthenticatorService::new("https://idp.example/realm", "client", "SECRET-REDACTED").unwrap()
}

fn request(path: &str, query: Option<&str>, headers: &[(&str, &str)]) -> Request {
    Request {
        method: "GET".to_string(),
        uri: Uri { scheme: None, authority: None, path: path.to_string(), query: query.map(|q| q.to_string()) },
        version: Version::Http11,
        headers: headers.iter().map(|(n, v)| Header { name: n.to_string(), value: v.to_string() }).collect(),
    }
}

fn login(state: &str) -> LoginRequest {
    LoginRequest {
        redirect_url: "http://app.test/page".to_string(),
        state: state.to_string(),
        nonce: "N".to_string(),
    }
}

fn pending(state: &str) -> Option<Session> {
    Some(Session { user: None, login: Some(login(state)) })
}

fn ctx(secure: bool) -> Context {
    Context { secure, addr: None, alpn: None, server_name: None }
}

fn message(e: HttpError) -> String {
    match e {
        HttpError::String(m) => m,
        other => panic!("unexpected {:?}", other),
    }
}

#[test]
fn new_keeps_its_settings() {
    let a = layer();
    assert_eq!(a.discovery_url, "https://idp.example/realm");
    assert_eq!(a.client_id, "client");
    assert_eq!(a.client_secret, "SECRET-REDACTED");
    assert_eq!(a.session_cookie, "session");
}

#[test]
fn new_refuses_what_is_no_url() {
    assert_eq!(message(AuthenticatorService::new("not a url", "c", "s").unwrap_err()), "relative URL without a base");
}

#[test]
fn session_key_is_the_session_cookie() {
    let a = layer();
    assert_eq!(a.session_key(&request("/", None, &[("cookie", "a=1; session=abc; b=2")])), Some("abc".to_string()));
    assert_eq!(a.session_key(&request("/", None, &[("cookie", "session = spaced ")])), Some("spaced".to_string()));
    assert_eq!(a.session_key(&request("/", None, &[("cookie", "junk; ;session=x")])), Some("x".to_string()));
}

#[test]
fn first_session_cookie_counts() {
    let a = layer();
    assert_eq!(a.session_key(&request("/", None, &[("cookie", "session=one; session=two")])), Some("one".to_string()));
    assert_eq!(
        a.session_key(&request("/", None, &[("cookie", "x=1"), ("cookie", "session=late")])),
        None
    );
}

#[test]
fn no_cookie_means_no_session() {
    let a = layer();
    assert_eq!(a.session_key(&request("/", None, &[])), None);
    assert_eq!(a.session_key(&request("/", None, &[("cookie", "other=1; Session=x")])), None);
    assert_eq!(a.session_key(&request("/", None, &[("host", "session=1")])), None);
}

#[test]
fn cookie_is_not_percent_decoded() {
    assert_eq!(layer().session_key(&request("/", None, &[("cookie", "session=a%20b")])), Some("a%20b".to_string()));
}

#[test]
fn user_in_session_is_logged_in() {
    assert!(AuthenticatorService::logged_in(&Some(Session { user: Some("u@example".to_string()), login: None })));
    assert!(!AuthenticatorService::logged_in(&pending("S")));
    assert!(!AuthenticatorService::logged_in(&None));
}

#[test]
fn matching_state_exchanges_the_code() {
    match AuthenticatorService::next_step(pending("S"), Some("state=S&code=C")).unwrap() {
        Step::Exchange { code, login } => {
            assert_eq!(code, "C");
            assert_eq!(login.state, "S");
            assert_eq!(login.nonce, "N");
            assert_eq!(login.redirect_url, "http://app.test/page");
        }
        other => panic!("unexpected {:?}", other),
    }
}

#[test]
fn other_state_never_exchanges() {
    assert_eq!(message(AuthenticatorService::next_step(pending("S"), Some("state=X&code=C")).unwrap_err()), "Invalid state");
    assert_eq!(message(AuthenticatorService::next_step(pending("S"), Some("code=C&state=")).unwrap_err()), "Invalid state");
    assert_eq!(message(AuthenticatorService::next_step(pending("S"), Some("state=s&code=C")).unwrap_err()), "Invalid state");
}

#[test]
fn query_is_form_decoded() {
    match AuthenticatorService::next_step(pending("a b&c"), Some("code=x%2Fy&state=a+b%26c")).unwrap() {
        Step::Exchange { code, .. } => assert_eq!(code, "x/y"),
        other => panic!("unexpected {:?}", other),
    }
}

#[test]
fn first_state_and_code_count() {
    assert!(matches!(
        AuthenticatorService::next_step(pending("S"), Some("state=S&state=X&code=C&code=D")).unwrap(),
        Step::Exchange { .. }
    ));
    assert!(AuthenticatorService::next_step(pending("S"), Some("state=X&state=S&code=C")).is_err());
}

#[test]
fn missing_parameter_begins_a_login_in_the_same_session() {
    for q in ["state=S", "code=C", "", "x=1"] {
        match AuthenticatorService::next_step(pending("S"), Some(q)).unwrap() {
            Step::Login { session: Some(s) } => assert_eq!(s.login.unwrap().state, "S"),
            other => panic!("unexpected {:?}", other),
        }
    }
}

#[test]
fn no_query_begins_a_login_in_a_new_session() {
    assert!(matches!(AuthenticatorService::next_step(pending("S"), None).unwrap(), Step::Login { session: None }));
    assert!(matches!(AuthenticatorService::next_step(None, Some("state=S&code=C")).unwrap(), Step::Login { session: None }));
    assert!(matches!(AuthenticatorService::next_step(None, None).unwrap(), Step::Login { session: None }));
}

#[test]
fn session_without_login_begins_one() {
    let s = Some(Session { user: None, login: None });
    match AuthenticatorService::next_step(s, Some("state=S&code=C")).unwrap() {
        Step::Login { session: Some(s) } => assert!(s.login.is_none()),
        other => panic!("unexpected {:?}", other),
    }
}

#[test]
fn exchange_needs_a_url_to_come_back_to() {
    let s = Some(Session {
        user: None,
        login: Some(LoginRequest { redirect_url: "nowhere".to_string(), state: "S".to_string(), nonce: "N".to_string() }),
    });
    assert_eq!(message(AuthenticatorService::next_step(s, Some("state=S&code=C")).unwrap_err()), "relative URL without a base");
}

#[test]
fn decide_works_on_parameters_already_read() {
    let params = vec![("code".to_string(), "C".to_string()), ("state".to_string(), "S".to_string())];
    assert!(matches!(AuthenticatorService::decide(pending("S"), Some(&params)).unwrap(), Step::Exchange { .. }));
    assert!(AuthenticatorService::decide(pending("T"), Some(&params)).is_err());
    assert!(matches!(AuthenticatorService::decide(pending("S"), None).unwrap(), Step::Login { session: None }));
}

#[test]
fn redirect_url_is_the_absolute_request() {
    let req = request("/page", None, &[("host", "app.test")]);
    assert_eq!(AuthenticatorService::redirect_url(&ctx(false), &req).unwrap(), "http://app.test/page");
    assert_eq!(AuthenticatorService::redirect_url(&ctx(true), &req).unwrap(), "https://app.test/page");
    let q = request("/page", Some("a=1"), &[("host", "app.test:8080")]);
    assert_eq!(AuthenticatorService::redirect_url(&ctx(false), &q).unwrap(), "http://app.test:8080/page?a=1");
}

#[test]
fn authority_of_the_target_goes_before_the_host_line() {
    let mut req = request("/p", None, &[("host", "other.test")]);
    req.uri.authority = Some("app.test".to_string());
    assert_eq!(AuthenticatorService::redirect_url(&ctx(true), &req).unwrap(), "https://app.test/p");
}

#[test]
fn request_without_any_authority_fails() {
    assert_eq!(message(AuthenticatorService::redirect_url(&ctx(false), &request("/p", None, &[])).unwrap_err()), "authority missing");
    let bad = request("/p", None, &[("host", "not a host")]);
    assert_eq!(message(AuthenticatorService::redirect_url(&ctx(false), &bad).unwrap_err()), "authority missing");
}

#[test]
fn absolute_takes_the_authority_it_is_given() {
    let uri = Uri { scheme: None, authority: None, path: "/x".to_string(), query: None };
    assert_eq!(AuthenticatorService::absolute(true, &uri, Some("h".to_string())).unwrap().to_string(), "https://h/x");
    assert!(AuthenticatorService::absolute(true, &uri, None).is_err());
}

#[test]
fn begin_login_keeps_the_login_in_the_session() {
    let s = AuthenticatorService::begin_login(None, login("S"));
    assert!(s.user.is_none());
    assert_eq!(s.login.unwrap().state, "S");
    let kept = AuthenticatorService::begin_login(pending("old"), login("new"));
    assert_eq!(kept.login.unwrap().state, "new");
}

#[test]
fn login_response_redirects_and_sets_the_cookie() {
    let a = layer();
    let r = a.login_response("https://idp.example/auth?x=1", Some("COOKIE"), false).unwrap();
    assert_eq!(r.status, 307);
    assert!(matches!(r.body, Body::Empty));
    assert_eq!(r.headers.len(), 2);
    assert_eq!((r.headers[0].name.as_str(), r.headers[0].value.as_str()), ("location", "https://idp.example/auth?x=1"));
    assert_eq!((r.headers[1].name.as_str(), r.headers[1].value.as_str()), ("set-cookie", "session=COOKIE; HttpOnly; Path=/"));
}

#[test]
fn secure_connection_sets_a_secure_cookie() {
    let r = layer().login_response("https://idp.example/auth", Some("C"), true).unwrap();
    assert_eq!(r.headers[1].value, "session=C; HttpOnly; Path=/; Secure");
}

#[test]
fn no_cookie_from_the_store_sets_none() {
    let r = layer().login_response("https://idp.example/auth", None, true).unwrap();
    assert_eq!(r.status, 307);
    assert_eq!(r.headers.len(), 1);
    assert_eq!(r.headers[0].name, "location");
}

#[test]
fn login_response_refuses_control_characters() {
    let a = layer();
    assert!(matches!(a.login_response("https://idp.example/", Some("a\nb"), false), Err(HttpError::String(_))));
    assert!(matches!(a.login_response("https://idp\r\n.example/", Some("c"), false), Err(HttpError::Http(_))));
    assert!(matches!(a.login_response("bad\u{7f}", None, false), Err(HttpError::Http(_))));
}

#[test]
fn complete_login_stores_the_user_and_drops_the_login() {
    let session = AuthenticatorService::complete_login(&login("S"), Some("email@example".to_string())).unwrap();
    assert_eq!(session.user.as_deref(), Some("email@example"));
    assert!(session.login.is_none());
    assert!(AuthenticatorService::logged_in(&Some(session)));
}

#[test]
fn complete_login_needs_an_address_that_fits_a_header() {
    let odd = LoginRequest { redirect_url: "http://a/\n".to_string(), state: "S".to_string(), nonce: "N".to_string() };
    assert_eq!(message(AuthenticatorService::complete_login(&odd, Some("e".to_string())).unwrap_err()), "failed to parse header value");
    assert_eq!(message(AuthenticatorService::complete_login(&odd, None).unwrap_err()), "failed to parse header value");
}

#[test]
fn complete_login_needs_an_email() {
    assert_eq!(message(AuthenticatorService::complete_login(&login("S"), None).unwrap_err()), "No email");
}

#[test]
fn login_round_trip() {
    let a = layer();
    let first = request("/page", None, &[("host", "app.test")]);
    assert_eq!(a.session_key(&first), None);
    assert!(!AuthenticatorService::logged_in(&None));
    let step = AuthenticatorService::next_step(None, first.uri.query.as_deref()).unwrap();
    let kept = match step {
        Step::Login { session } => session,
        other => panic!("unexpected {:?}", other),
    };
    let back = AuthenticatorService::redirect_url(&ctx(false), &first).unwrap();
    assert_eq!(back, "http://app.test/page");
    let stored = AuthenticatorService::begin_login(
        kept,
        LoginRequest { redirect_url: back, state: "S".to_string(), nonce: "N".to_string() },
    );
    let resp = a.login_response("https://idp.example/authorize?state=S", Some("KEY"), false).unwrap();
    assert_eq!(resp.status, 307);

    let callback = request("/page", Some("state=S&code=C"), &[("host", "app.test"), ("cookie", "session=KEY")]);
    assert_eq!(a.session_key(&callback), Some("KEY".to_string()));
    let login = match AuthenticatorService::next_step(Some(stored), callback.uri.query.as_deref()).unwrap() {
        Step::Exchange { code, login } => {
            assert_eq!(code, "C");
            login
        }
        other => panic!("unexpected {:?}", other),
    };
    assert_eq!(login.nonce, "N");
    let session = AuthenticatorService::complete_login(&login, Some("email@example".to_string())).unwrap();
    let resp = a.login_response(&login.redirect_url, Some("KEY2"), false).unwrap();
    assert_eq!(resp.status, 307);
    assert_eq!(resp.headers[0].value, "http://app.test/page");
    assert_eq!(resp.headers[1].value, "session=KEY2; HttpOnly; Path=/");
    assert!(AuthenticatorService::logged_in(&Some(session)));
}
