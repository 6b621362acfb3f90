//! The layer that lets a request through only after a login with an OpenID
//! Connect provider. The layer decides; whoever runs it talks to the session
//! store and to the provider.

use vstd::prelude::*;
use vstd::string::StringExecFns;
use crate::client::Client;
use crate::context::Context;
use crate::message::{built, first_value, redirection, header, is_valid_value,
    lemma_first_value_at, lemma_first_value_none, lines, valid_value, Body, BodyView, Header,
    Request, RequestView, Response, ResponseView, Version};
use crate::service::{HttpError, HttpErrorView};
use crate::text::{copy_opt, from_chars, opt_text, push_text, same};
use crate::uri::{assembled, authority_parts, outcome, Uri, UriView};

verus! {

/// The body of a token response, of which nothing is read here.
#[derive(Debug)]
pub struct Token {}

/// The cookies of a `Cookie` header as the `cookie` crate reads them, one
/// item for each piece between semicolons that is not blank: name and value
/// where the piece is a cookie, nothing where it is not.
pub uninterp spec fn cookie_pairs(header: Seq<char>) -> Seq<Option<(Seq<char>, Seq<char>)>>;

/// The names and values of a query string as `form_urlencoded` decodes them.
pub uninterp spec fn query_pairs(query: Seq<char>) -> Seq<(Seq<char>, Seq<char>)>;

/// What `openidconnect` objects to in the address of a provider, or nothing
/// where it takes the text for a URL.
pub uninterp spec fn issuer_url_error(url: Seq<char>) -> Option<Seq<char>>;

/// What `openidconnect` objects to in an address to come back to, or nothing
/// where it takes the text for a URL.
pub uninterp spec fn redirect_url_error(url: Seq<char>) -> Option<Seq<char>>;

/// The items of `v` as values of specifications.
pub open spec fn cookie_items(v: Seq<Option<(String, String)>>) -> Seq<
    Option<(Seq<char>, Seq<char>)>,
> {
    Seq::new(
        v.len(),
        |i: int|
            match v[i] {
                Some((name, value)) => Some((name@, value@)),
                None => None,
            },
    )
}

/// The pairs of `v` as values of specifications.
pub open spec fn pairs(v: Seq<(String, String)>) -> Seq<(Seq<char>, Seq<char>)> {
    Seq::new(v.len(), |i: int| (v[i].0@, v[i].1@))
}

/// Calls `cookie::Cookie::split_parse` and hands out each item as name and
/// value, or as nothing where the item is an error.
#[verifier::external_body]
fn split_cookies(header: &str) -> (r: Vec<Option<(String, String)>>)
    ensures
        cookie_items(r@) == cookie_pairs(header@),
{
    cookie::Cookie::split_parse(header).map(
        |c| c.ok().map(|c| (c.name().to_string(), c.value().to_string())),
    ).collect()
}

/// Calls `form_urlencoded::parse` on the bytes of `query` and hands out the
/// decoded names and values in their order.
#[verifier::external_body]
fn parse_query(query: &str) -> (r: Vec<(String, String)>)
    ensures
        pairs(r@) == query_pairs(query@),
{
    form_urlencoded::parse(query.as_bytes()).map(|(k, v)| (k.into_owned(), v.into_owned())).collect()
}

/// Calls `openidconnect::IssuerUrl::new` and hands out the text of its error.
#[verifier::external_body]
fn check_issuer_url(url: &str) -> (r: Option<String>)
    ensures
        opt_text(r) == issuer_url_error(url@),
{
    openidconnect::IssuerUrl::new(url.to_string()).err().map(|e| e.to_string())
}

/// Calls `openidconnect::RedirectUrl::new` and hands out the text of its
/// error.
#[verifier::external_body]
fn check_redirect_url(url: &str) -> (r: Option<String>)
    ensures
        opt_text(r) == redirect_url_error(url@),
{
    openidconnect::RedirectUrl::new(url.to_string()).err().map(|e| e.to_string())
}

/// The value of the first cookie named `name`. Items that are no cookies are
/// passed over.
pub open spec fn first_cookie(items: Seq<Option<(Seq<char>, Seq<char>)>>, name: Seq<char>) -> Option<
    Seq<char>,
>
    decreases items.len(),
{
    if items.len() == 0 {
        None
    } else {
        match items[0] {
            Some((n, v)) if n == name => Some(v),
            _ => first_cookie(items.drop_first(), name),
        }
    }
}

/// Whether an item is a cookie named `name`.
pub open spec fn is_cookie(item: Option<(Seq<char>, Seq<char>)>, name: Seq<char>) -> bool {
    item matches Some((n, _)) && n == name
}

proof fn lemma_first_cookie_at(items: Seq<Option<(Seq<char>, Seq<char>)>>, name: Seq<char>, i: int)
    requires
        0 <= i < items.len(),
        is_cookie(items[i], name),
        forall|j: int| 0 <= j < i ==> !is_cookie(#[trigger] items[j], name),
    ensures
        items[i] matches Some((_, v)) && first_cookie(items, name) == Some(v),
    decreases i,
{
    if i > 0 {
        let rest = items.drop_first();
        assert(!is_cookie(items[0], name));
        assert forall|j: int| 0 <= j < i - 1 implies !is_cookie(#[trigger] rest[j], name) by {
            assert(rest[j] == items[j + 1]);
        }
        assert(rest[i - 1] == items[i]);
        lemma_first_cookie_at(rest, name, i - 1);
    }
}

proof fn lemma_first_cookie_none(items: Seq<Option<(Seq<char>, Seq<char>)>>, name: Seq<char>)
    requires
        forall|j: int| 0 <= j < items.len() ==> !is_cookie(#[trigger] items[j], name),
    ensures
        first_cookie(items, name) is None,
    decreases items.len(),
{
    if items.len() > 0 {
        let rest = items.drop_first();
        assert(!is_cookie(items[0], name));
        assert forall|j: int| 0 <= j < rest.len() implies !is_cookie(#[trigger] rest[j], name) by {
            assert(rest[j] == items[j + 1]);
        }
        lemma_first_cookie_none(rest, name);
    }
}

/// The value of the first cookie named `name` among `items`.
pub fn find_cookie(items: &Vec<Option<(String, String)>>, name: &str) -> (r: Option<String>)
    ensures
        opt_text(r) == first_cookie(cookie_items(items@), name@),
{
    let mut i: usize = 0;
    while i < items.len()
        invariant
            i <= items.len(),
            forall|j: int| 0 <= j < i ==> !is_cookie(#[trigger] cookie_items(items@)[j], name@),
        decreases items.len() - i,
    {
        match &items[i] {
            Some((n, v)) => {
                if same(n.as_str(), name) {
                    proof {
                        lemma_first_cookie_at(cookie_items(items@), name@, i as int);
                    }
                    return Some(v.clone());
                }
            },
            None => {},
        }
        i += 1;
    }
    proof {
        lemma_first_cookie_none(cookie_items(items@), name@);
    }
    None
}

/// The value of the first pair named `name`.
pub fn find_pair<'a>(list: &'a Vec<(String, String)>, name: &str) -> (r: Option<&'a String>)
    ensures
        match r {
            Some(v) => first_value(pairs(list@), name@) == Some(v@),
            None => first_value(pairs(list@), name@) is None,
        },
{
    let mut i: usize = 0;
    while i < list.len()
        invariant
            i <= list.len(),
            forall|j: int| 0 <= j < i ==> pairs(list@)[j].0 != name@,
        decreases list.len() - i,
    {
        if same(list[i].0.as_str(), name) {
            proof {
                lemma_first_value_at(pairs(list@), name@, i as int);
            }
            return Some(&list[i].1);
        }
        i += 1;
    }
    proof {
        lemma_first_value_none(pairs(list@), name@);
    }
    None
}

/// Why a request to the provider failed.
#[derive(Debug)]
pub enum ClientError {
    /// The address of the provider could not be read.
    Uri(String),
    /// Anything else, in a few words.
    Other(String),
}

/// What a [`ClientError`] is, as a value of specifications.
pub enum ClientErrorView {
    Uri(Seq<char>),
    Other(Seq<char>),
}

impl View for ClientError {
    type V = ClientErrorView;

    open spec fn view(&self) -> ClientErrorView {
        match self {
            ClientError::Uri(m) => ClientErrorView::Uri(m@),
            ClientError::Other(m) => ClientErrorView::Other(m@),
        }
    }
}

impl ClientError {
    /// The text shown for the error, which is the same for all.
    pub fn to_string(&self) -> (s: String)
        ensures
            s@ == "Upstream server error"@,
    {
        String::from_str("Upstream server error")
    }
}

/// Every value of the header lines can stand as a header value.
pub open spec fn valid_lines(hs: Seq<(Seq<char>, Seq<char>)>) -> bool {
    forall|i: int| 0 <= i < hs.len() ==> valid_value((#[trigger] hs[i]).1)
}

/// The request that goes to a provider at `host`: the one given, on
/// HTTP/1.1, with a `host` line before its own lines.
pub open spec fn provider_request(host: Option<Seq<char>>, req: RequestView) -> Result<
    RequestView,
    ClientErrorView,
> {
    match host {
        None => Err(ClientErrorView::Other("No hostname"@)),
        Some(h) => if valid_value(h) && valid_lines(req.headers) {
            Ok(
                RequestView {
                    method: req.method,
                    uri: req.uri,
                    version: Version::Http11,
                    headers: seq![("host"@, h)] + req.headers,
                },
            )
        } else {
            Err(ClientErrorView::Other("Can't create response"@))
        },
    }
}

/// Whether every value of the header lines can stand as a header value.
pub fn lines_are_valid(headers: &Vec<Header>) -> (r: bool)
    ensures
        r == valid_lines(lines(headers@)),
{
    let mut i: usize = 0;
    while i < headers.len()
        invariant
            i <= headers.len(),
            forall|j: int| 0 <= j < i ==> valid_value((#[trigger] lines(headers@)[j]).1),
        decreases headers.len() - i,
    {
        if !is_valid_value(headers[i].value.as_str()) {
            assert(!valid_value(lines(headers@)[i as int].1));
            return false;
        }
        i += 1;
    }
    true
}

/// The request that goes to a provider at `host`.
pub fn request_to(host: Option<String>, req: &Request) -> (r: Result<Request, ClientError>)
    ensures
        match provider_request(opt_text(host), req@) {
            Ok(out) => r matches Ok(x) && x@ == out,
            Err(e) => r matches Err(x) && x@ == e,
        },
{
    let host = match host {
        Some(h) => h,
        None => {
            return Err(ClientError::Other(String::from_str("No hostname")));
        },
    };
    if !is_valid_value(host.as_str()) || !lines_are_valid(&req.headers) {
        return Err(ClientError::Other(String::from_str("Can't create response")));
    }
    let mut headers: Vec<Header> = Vec::new();
    headers.push(Header { name: String::from_str("host"), value: host });
    let ghost first = lines(headers@);
    let mut i: usize = 0;
    while i < req.headers.len()
        invariant
            i <= req.headers.len(),
            lines(headers@) == first + lines(req.headers@).take(i as int),
        decreases req.headers.len() - i,
    {
        let ghost before = lines(headers@);
        headers.push(
            Header { name: req.headers[i].name.clone(), value: req.headers[i].value.clone() },
        );
        assert(lines(headers@) == before.push(req.headers@[i as int]@));
        assert(lines(req.headers@).take(i + 1) == lines(req.headers@).take(i as int).push(
            req.headers@[i as int]@,
        ));
        i += 1;
    }
    assert(lines(req.headers@).take(req.headers.len() as int) == lines(req.headers@));
    assert(first == seq![("host"@, host@)]);
    Ok(
        Request {
            method: req.method.clone(),
            uri: req.uri.copy(),
            version: Version::Http11,
            headers,
        },
    )
}

impl<S> Client<S> {
    /// The request of the login layer as it goes to the provider that its
    /// target names.
    pub fn call(req: &Request) -> (r: Result<Request, ClientError>)
        ensures
            match provider_request(req@.uri.host(), req@) {
                Ok(out) => r matches Ok(x) && x@ == out,
                Err(e) => r matches Err(x) && x@ == e,
            },
    {
        request_to(req.uri.host(), req)
    }
}

/// A login that has been begun: where to come back to, and the two secrets
/// that bind the provider's answer to this session.
#[derive(Debug)]
pub struct LoginRequest {
    pub redirect_url: String,
    pub state: String,
    pub nonce: String,
}

/// What a [`LoginRequest`] is, as a value of specifications.
pub struct LoginView {
    pub redirect_url: Seq<char>,
    pub state: Seq<char>,
    pub nonce: Seq<char>,
}

impl View for LoginRequest {
    type V = LoginView;

    open spec fn view(&self) -> LoginView {
        LoginView { redirect_url: self.redirect_url@, state: self.state@, nonce: self.nonce@ }
    }
}

/// What a session holds for this layer: the user who is logged in, and the
/// login that has been begun.
#[derive(Debug)]
pub struct Session {
    pub user: Option<String>,
    pub login: Option<LoginRequest>,
}

/// What a [`Session`] is, as a value of specifications.
pub struct SessionView {
    pub user: Option<Seq<char>>,
    pub login: Option<LoginView>,
}

impl View for Session {
    type V = SessionView;

    open spec fn view(&self) -> SessionView {
        SessionView {
            user: opt_text(self.user),
            login: match self.login {
                Some(l) => Some(l@),
                None => None,
            },
        }
    }
}

/// What an optional session is, as a value of specifications.
pub open spec fn opt_session(s: Option<Session>) -> Option<SessionView> {
    match s {
        Some(s) => Some(s@),
        None => None,
    }
}

/// What is done with a request from someone who is not logged in.
#[derive(Debug)]
pub enum Step {
    /// The provider has sent the user back: exchange `code` for tokens and
    /// check them against `login`.
    Exchange { code: String, login: LoginRequest },
    /// Send the user to the provider. The login is kept in `session`, or in
    /// a new session where there is none.
    Login { session: Option<Session> },
}

/// What a [`Step`] is, as a value of specifications.
pub enum StepView {
    Exchange { code: Seq<char>, login: LoginView },
    Login { session: Option<SessionView> },
}

impl View for Step {
    type V = StepView;

    open spec fn view(&self) -> StepView {
        match self {
            Step::Exchange { code, login } => StepView::Exchange { code: code@, login: login@ },
            Step::Login { session } => StepView::Login { session: opt_session(*session) },
        }
    }
}

/// The outcome of a decision, as a value of specifications.
pub open spec fn decided(r: Result<Step, HttpError>) -> Result<StepView, HttpErrorView> {
    match r {
        Ok(s) => Ok(s@),
        Err(e) => Err(e@),
    }
}

/// The step for a session and the parameters of the request. Only a session
/// with a login begun, met by a request that brings both `state` and `code`,
/// is a return from the provider; a `state` other than the one kept in the
/// session is refused. Every other request begins a login, and keeps the
/// session only where the request has a query.
pub open spec fn step_for(
    session: Option<SessionView>,
    params: Option<Seq<(Seq<char>, Seq<char>)>>,
) -> Result<StepView, HttpErrorView> {
    match (session, params) {
        (Some(s), Some(ps)) => match (
            s.login,
            first_value(ps, "state"@),
            first_value(ps, "code"@),
        ) {
            (Some(login), Some(state), Some(code)) => if state != login.state {
                Err(HttpErrorView::String("Invalid state"@))
            } else {
                Ok(StepView::Exchange { code, login })
            },
            _ => Ok(StepView::Login { session: Some(s) }),
        },
        _ => Ok(StepView::Login { session: None }),
    }
}

/// A code is exchanged only for a request whose `state` is the one that the
/// session keeps; a request that brings a code with another `state` is
/// refused.
pub proof fn lemma_state_binding(
    session: Option<SessionView>,
    params: Option<Seq<(Seq<char>, Seq<char>)>>,
)
    ensures
        step_for(session, params) matches Ok(StepView::Exchange { code, login }) ==> {
            &&& session matches Some(s)
            &&& s.login == Some(login)
            &&& params matches Some(ps)
            &&& first_value(ps, "state"@) == Some(login.state)
            &&& first_value(ps, "code"@) == Some(code)
        },
        ({
            &&& session matches Some(s)
            &&& s.login matches Some(login)
            &&& params matches Some(ps)
            &&& first_value(ps, "code"@) is Some
            &&& first_value(ps, "state"@) matches Some(state)
            &&& state != login.state
        }) ==> step_for(session, params) == Err::<StepView, HttpErrorView>(
            HttpErrorView::String("Invalid state"@),
        ),
{
}

/// The step that follows the check of the address to come back to: an
/// exchange goes on only where the address is a URL.
pub open spec fn checked(step: Result<StepView, HttpErrorView>) -> Result<StepView, HttpErrorView> {
    match step {
        Ok(StepView::Exchange { code, login }) => match redirect_url_error(login.redirect_url) {
            Some(m) => Err(HttpErrorView::String(m)),
            None => step,
        },
        _ => step,
    }
}

/// The target of a request made absolute: the scheme by whether the
/// connection is secure, the authority from the target itself or else the
/// one given.
pub open spec fn origin(secure: bool, uri: UriView, authority: Option<Seq<char>>) -> Result<
    UriView,
    HttpErrorView,
> {
    assembled(
        UriView {
            scheme: Some(
                if secure {
                    "https"@
                } else {
                    "http"@
                },
            ),
            authority: match uri.authority {
                Some(a) => Some(a),
                None => authority,
            },
            path: uri.path,
            query: uri.query,
        },
    )
}

/// The authority that a `Host` header gives, where it holds one.
pub open spec fn host_authority(host: Option<Seq<char>>) -> Option<Seq<char>> {
    match host {
        Some(h) => if authority_parts(h) is Some {
            Some(h)
        } else {
            None
        },
        None => None,
    }
}

/// The address that the user comes back to after the login: the target of
/// the request made absolute, where that is a URL.
pub open spec fn return_address(secure: bool, req: RequestView) -> Result<
    Seq<char>,
    HttpErrorView,
> {
    match origin(secure, req.uri, host_authority(first_value(req.headers, "host"@))) {
        Ok(u) => match redirect_url_error(u.text()) {
            Some(m) => Err(HttpErrorView::String(m)),
            None => Ok(u.text()),
        },
        Err(e) => Err(e),
    }
}

/// The value of the header that sets the session cookie.
pub open spec fn cookie_line(name: Seq<char>, value: Seq<char>, secure: bool) -> Seq<char> {
    name + "="@ + value + "; HttpOnly; Path=/"@ + if secure {
        "; Secure"@
    } else {
        Seq::<char>::empty()
    }
}

/// The response that sends the user elsewhere: to the provider at the
/// beginning of a login, back to where the login began at its end. It sets
/// the session cookie where the store has given one.
pub open spec fn login_redirect(
    name: Seq<char>,
    address: Seq<char>,
    cookie: Option<Seq<char>>,
    secure: bool,
) -> Result<ResponseView, HttpErrorView> {
    match cookie {
        Some(c) => if !valid_value(cookie_line(name, c, secure)) {
            Err(HttpErrorView::String("failed to parse header value"@))
        } else if !valid_value(address) {
            Err(HttpErrorView::Http("failed to parse header value"@))
        } else {
            Ok(
                ResponseView {
                    status: 307,
                    headers: seq![
                        ("location"@, address),
                        ("set-cookie"@, cookie_line(name, c, secure)),
                    ],
                    body: BodyView::Empty,
                },
            )
        },
        None => redirection(address),
    }
}

/// The session at the end of a login, once the provider has vouched for the
/// user: it holds the user and no login any more. There is no such session
/// where the address to go back to cannot stand in a header line, or where
/// the provider has given no address for the user.
pub open spec fn login_done(login: LoginView, email: Option<Seq<char>>) -> Result<
    SessionView,
    HttpErrorView,
> {
    if !valid_value(login.redirect_url) {
        Err(HttpErrorView::String("failed to parse header value"@))
    } else {
        match email {
            None => Err(HttpErrorView::String("No email"@)),
            Some(e) => Ok(SessionView { user: Some(e), login: None }),
        }
    }
}

/// The layer's settings.
#[derive(Debug)]
pub struct AuthenticatorService {
    /// The address of the provider's discovery document.
    pub discovery_url: String,
    /// The name under which the provider knows this client.
    pub client_id: String,
    /// The secret that this client shows to the provider.
    pub client_secret: String,
    /// The name of the cookie that holds the key of the session.
    pub session_cookie: String,
}

impl AuthenticatorService {
    /// A layer for the provider at `discovery_url`. The session cookie is
    /// named `session`. An address that is no URL is refused.
    pub fn new(discovery_url: &str, client_id: &str, client_secret: &str) -> (r: Result<
        AuthenticatorService,
        HttpError,
    >)
        ensures
            match issuer_url_error(discovery_url@) {
                Some(m) => r matches Err(e) && e@ == HttpErrorView::String(m),
                None => r matches Ok(s) && s.discovery_url@ == discovery_url@ && s.client_id@
                    == client_id@ && s.client_secret@ == client_secret@ && s.session_cookie@
                    == "session"@,
            },
    {
        match check_issuer_url(discovery_url) {
            Some(m) => Err(HttpError::String(m)),
            None => Ok(
                AuthenticatorService {
                    discovery_url: String::from_str(discovery_url),
                    client_id: String::from_str(client_id),
                    client_secret: String::from_str(client_secret),
                    session_cookie: String::from_str("session"),
                },
            ),
        }
    }

    /// The key of the session that a request belongs to: the value of the
    /// session cookie in the first `Cookie` header.
    pub fn session_key(&self, req: &Request) -> (r: Option<String>)
        ensures
            opt_text(r) == match first_value(req@.headers, "cookie"@) {
                Some(h) => first_cookie(cookie_pairs(h), self.session_cookie@),
                None => None,
            },
    {
        match header(&req.headers, "cookie") {
            Some(h) => {
                let items = split_cookies(h.as_str());
                find_cookie(&items, self.session_cookie.as_str())
            },
            None => None,
        }
    }

    /// Whether the session belongs to a user who is logged in, so that the
    /// request goes on to the service behind the layer.
    pub fn logged_in(session: &Option<Session>) -> (r: bool)
        ensures
            r == (session matches Some(s) && s.user is Some),
    {
        match session {
            Some(s) => s.user.is_some(),
            None => false,
        }
    }

    /// The step for a session and the parameters of the request.
    pub fn decide(session: Option<Session>, params: Option<&Vec<(String, String)>>) -> (r: Result<
        Step,
        HttpError,
    >)
        ensures
            decided(r) == step_for(
                opt_session(session),
                match params {
                    Some(ps) => Some(pairs(ps@)),
                    None => None,
                },
            ),
    {
        match (session, params) {
            (Some(s), Some(ps)) => {
                let state = find_pair(ps, "state");
                let code = find_pair(ps, "code");
                let Session { user, login } = s;
                match (login, state, code) {
                    (Some(login), Some(state), Some(code)) => {
                        if !same(state.as_str(), login.state.as_str()) {
                            Err(HttpError::message("Invalid state"))
                        } else {
                            Ok(Step::Exchange { code: code.clone(), login })
                        }
                    },
                    (login, _, _) => Ok(Step::Login { session: Some(Session { user, login }) }),
                }
            },
            _ => Ok(Step::Login { session: None }),
        }
    }

    /// The step for a session and the query of the request, once it is known
    /// that nobody is logged in.
    pub fn next_step(session: Option<Session>, query: Option<&str>) -> (r: Result<Step, HttpError>)
        ensures
            decided(r) == checked(
                step_for(
                    opt_session(session),
                    match query {
                        Some(q) => Some(query_pairs(q@)),
                        None => None,
                    },
                ),
            ),
    {
        let step = match query {
            Some(q) => {
                let params = parse_query(q);
                AuthenticatorService::decide(session, Some(&params))
            },
            None => AuthenticatorService::decide(session, None),
        };
        match step {
            Ok(Step::Exchange { code, login }) => {
                match check_redirect_url(login.redirect_url.as_str()) {
                    Some(m) => Err(HttpError::String(m)),
                    None => Ok(Step::Exchange { code, login }),
                }
            },
            other => other,
        }
    }

    /// The target of a request made absolute.
    pub fn absolute(secure: bool, uri: &Uri, authority: Option<String>) -> (r: Result<
        Uri,
        HttpError,
    >)
        ensures
            outcome(r) == origin(secure, uri@, opt_text(authority)),
    {
        let scheme = if secure {
            String::from_str("https")
        } else {
            String::from_str("http")
        };
        let authority = match &uri.authority {
            Some(a) => Some(a.clone()),
            None => authority,
        };
        Uri::from_parts(
            Some(scheme),
            authority,
            uri.path.clone(),
            copy_opt(&uri.query),
        )
    }

    /// The address that the user comes back to after the login.
    pub fn redirect_url(ctx: &Context, req: &Request) -> (r: Result<String, HttpError>)
        ensures
            match return_address(ctx.secure, req@) {
                Ok(a) => r matches Ok(s) && s@ == a,
                Err(e) => r matches Err(x) && x@ == e,
            },
    {
        let authority = match header(&req.headers, "host") {
            Some(h) => match Uri::authority(h.as_str()) {
                Some(_) => Some(h.clone()),
                None => None,
            },
            None => None,
        };
        match AuthenticatorService::absolute(ctx.secure, &req.uri, authority) {
            Ok(u) => {
                let text = u.to_string();
                match check_redirect_url(text.as_str()) {
                    Some(m) => Err(HttpError::String(m)),
                    None => Ok(text),
                }
            },
            Err(e) => Err(e),
        }
    }

    /// The session in which a login that has been begun is kept: the one
    /// given, or a new one, with the login in it.
    pub fn begin_login(session: Option<Session>, login: LoginRequest) -> (s: Session)
        ensures
            s@ == (SessionView {
                user: match session {
                    Some(old) => opt_text(old.user),
                    None => None,
                },
                login: Some(login@),
            }),
    {
        match session {
            Some(old) => Session { user: old.user, login: Some(login) },
            None => Session { user: None, login: Some(login) },
        }
    }

    /// The response that sends the user to `address` and sets the session
    /// cookie to `cookie`, where the store has given one.
    pub fn login_response(&self, address: &str, cookie: Option<&str>, secure: bool) -> (r: Result<
        Response,
        HttpError,
    >)
        ensures
            built(r) == login_redirect(
                self.session_cookie@,
                address@,
                match cookie {
                    Some(c) => Some(c@),
                    None => None,
                },
                secure,
            ),
    {
        match cookie {
            Some(c) => {
                let mut line: Vec<char> = Vec::new();
                push_text(&mut line, self.session_cookie.as_str());
                push_text(&mut line, "=");
                push_text(&mut line, c);
                push_text(&mut line, "; HttpOnly; Path=/");
                if secure {
                    push_text(&mut line, "; Secure");
                }
                assert(line@ == cookie_line(self.session_cookie@, c@, secure));
                let line = from_chars(&line);
                if !is_valid_value(line.as_str()) {
                    return Err(HttpError::message("failed to parse header value"));
                }
                if !is_valid_value(address) {
                    return Err(HttpError::Http(String::from_str("failed to parse header value")));
                }
                let mut headers: Vec<Header> = Vec::new();
                headers.push(
                    Header { name: String::from_str("location"), value: String::from_str(address) },
                );
                headers.push(Header { name: String::from_str("set-cookie"), value: line });
                let resp = Response { status: 307, headers, body: Body::Empty };
                assert(lines(resp.headers@) == seq![
                    ("location"@, address@),
                    ("set-cookie"@, cookie_line(self.session_cookie@, c@, secure)),
                ]);
                Ok(resp)
            },
            None => Response::redirect(address),
        }
    }

    /// The session at the end of a login, once the provider has vouched for
    /// the user with the address `email`. The user is then sent back to
    /// where the login began, with the answer that `login_response` gives
    /// for that address.
    pub fn complete_login(login: &LoginRequest, email: Option<String>) -> (r: Result<
        Session,
        HttpError,
    >)
        ensures
            match login_done(login@, opt_text(email)) {
                Ok(session) => r matches Ok(x) && x@ == session,
                Err(e) => r matches Err(x) && x@ == e,
            },
    {
        if !is_valid_value(login.redirect_url.as_str()) {
            return Err(HttpError::message("failed to parse header value"));
        }
        match email {
            None => Err(HttpError::message("No email")),
            Some(e) => Ok(Session { user: Some(e), login: None }),
        }
    }
}

} // verus!
