//! Requests and responses as the services see them: the head in full, the
//! body by its kind.

use vstd::prelude::*;
use vstd::utf8::encode_utf8;
use vstd::string::StringExecFns;
use crate::service::{HttpError, HttpErrorView};
use crate::text::{same, to_chars};
use crate::uri::{Uri, UriView};

verus! {

/// The version of HTTP that a message is written in.
#[derive(Debug, Clone, Copy, PartialEq, Eq, Structural)]
pub enum Version {
    Http09,
    Http10,
    Http11,
    Http2,
    Http3,
}

/// One header line. Names are held in lower case, as they are compared.
#[derive(Debug)]
pub struct Header {
    pub name: String,
    pub value: String,
}

impl View for Header {
    type V = (Seq<char>, Seq<char>);

    open spec fn view(&self) -> (Seq<char>, Seq<char>) {
        (self.name@, self.value@)
    }
}

/// The header lines of `v` as pairs of name and value.
pub open spec fn lines(v: Seq<Header>) -> Seq<(Seq<char>, Seq<char>)> {
    Seq::new(v.len(), |i: int| v[i]@)
}

/// The value of the first line named `name`, if there is one.
pub open spec fn first_value(hs: Seq<(Seq<char>, Seq<char>)>, name: Seq<char>) -> Option<
    Seq<char>,
>
    decreases hs.len(),
{
    if hs.len() == 0 {
        None
    } else if hs[0].0 == name {
        Some(hs[0].1)
    } else {
        first_value(hs.drop_first(), name)
    }
}

/// The first line named `name` stands at `i`.
pub proof fn lemma_first_value_at(hs: Seq<(Seq<char>, Seq<char>)>, name: Seq<char>, i: int)
    requires
        0 <= i < hs.len(),
        hs[i].0 == name,
        forall|j: int| 0 <= j < i ==> hs[j].0 != name,
    ensures
        first_value(hs, name) == Some(hs[i].1),
    decreases i,
{
    if i > 0 {
        let rest = hs.drop_first();
        assert forall|j: int| 0 <= j < i - 1 implies rest[j].0 != name by {
            assert(rest[j] == hs[j + 1]);
        }
        assert(rest[i - 1] == hs[i]);
        lemma_first_value_at(rest, name, i - 1);
    }
}

/// No line is named `name`.
pub proof fn lemma_first_value_none(hs: Seq<(Seq<char>, Seq<char>)>, name: Seq<char>)
    requires
        forall|j: int| 0 <= j < hs.len() ==> hs[j].0 != name,
    ensures
        first_value(hs, name) is None,
    decreases hs.len(),
{
    if hs.len() > 0 {
        let rest = hs.drop_first();
        assert forall|j: int| 0 <= j < rest.len() implies rest[j].0 != name by {
            assert(rest[j] == hs[j + 1]);
        }
        lemma_first_value_none(rest, name);
    }
}

/// The value of the first header named `name`.
pub fn header<'a>(headers: &'a Vec<Header>, name: &str) -> (r: Option<&'a String>)
    ensures
        match r {
            Some(v) => first_value(lines(headers@), name@) == Some(v@),
            None => first_value(lines(headers@), name@) is None,
        },
{
    let mut i: usize = 0;
    while i < headers.len()
        invariant
            i <= headers.len(),
            forall|j: int| 0 <= j < i ==> lines(headers@)[j].0 != name@,
        decreases headers.len() - i,
    {
        if same(headers[i].name.as_str(), name) {
            proof {
                lemma_first_value_at(lines(headers@), name@, i as int);
            }
            return Some(&headers[i].value);
        }
        i += 1;
    }
    proof {
        lemma_first_value_none(lines(headers@), name@);
    }
    None
}

/// A copy of the header lines.
pub fn copy_headers(headers: &Vec<Header>) -> (out: Vec<Header>)
    ensures
        lines(out@) == lines(headers@),
{
    let mut out: Vec<Header> = Vec::new();
    let mut i: usize = 0;
    while i < headers.len()
        invariant
            i <= headers.len(),
            lines(out@) == lines(headers@).take(i as int),
        decreases headers.len() - i,
    {
        let ghost before = lines(out@);
        out.push(Header { name: headers[i].name.clone(), value: headers[i].value.clone() });
        assert(lines(out@) == before.push(headers@[i as int]@));
        i += 1;
    }
    assert(lines(headers@).take(headers.len() as int) == lines(headers@));
    out
}

/// The head of a request.
#[derive(Debug)]
pub struct Request {
    pub method: String,
    pub uri: Uri,
    pub version: Version,
    pub headers: Vec<Header>,
}

/// What a [`Request`] is, as a value of specifications.
pub struct RequestView {
    pub method: Seq<char>,
    pub uri: UriView,
    pub version: Version,
    pub headers: Seq<(Seq<char>, Seq<char>)>,
}

impl View for Request {
    type V = RequestView;

    open spec fn view(&self) -> RequestView {
        RequestView {
            method: self.method@,
            uri: self.uri@,
            version: self.version,
            headers: lines(self.headers@),
        }
    }
}

/// The body of a response, by where its bytes come from.
#[derive(Debug)]
pub enum Body {
    /// No bytes at all.
    Empty,
    /// The bytes of a text held in memory.
    Text(String),
    /// The contents of the file at a path, read while they are sent.
    File(String),
    /// Bytes passed on from an upstream response, of which at least so many
    /// are known to come.
    Upstream(u64),
}

/// What a [`Body`] is, as a value of specifications.
pub enum BodyView {
    Empty,
    Text(Seq<char>),
    File(Seq<char>),
    Upstream(u64),
}

impl View for Body {
    type V = BodyView;

    open spec fn view(&self) -> BodyView {
        match self {
            Body::Empty => BodyView::Empty,
            Body::Text(s) => BodyView::Text(s@),
            Body::File(p) => BodyView::File(p@),
            Body::Upstream(n) => BodyView::Upstream(*n),
        }
    }
}

impl BodyView {
    /// The number of bytes that the body is known to have at least: all of
    /// them for a text in memory, none for a file that is still to be read.
    pub open spec fn lower_bound(self) -> nat {
        match self {
            BodyView::Empty => 0,
            BodyView::Text(s) => encode_utf8(s).len(),
            BodyView::File(_) => 0,
            BodyView::Upstream(n) => n as nat,
        }
    }
}

impl Body {
    /// The number of bytes that the body is known to have at least.
    pub fn lower_bound(&self) -> (n: u64)
        ensures
            n == self@.lower_bound(),
    {
        match self {
            Body::Empty => 0,
            Body::Text(s) => {
                let len: usize = s.as_str().as_bytes().len();
                len as u64
            },
            Body::File(_) => 0,
            Body::Upstream(n) => *n,
        }
    }
}

/// A response: status, header lines and body.
#[derive(Debug)]
pub struct Response {
    pub status: u16,
    pub headers: Vec<Header>,
    pub body: Body,
}

/// What a [`Response`] is, as a value of specifications.
pub struct ResponseView {
    pub status: u16,
    pub headers: Seq<(Seq<char>, Seq<char>)>,
    pub body: BodyView,
}

impl View for Response {
    type V = ResponseView;

    open spec fn view(&self) -> ResponseView {
        ResponseView { status: self.status, headers: lines(self.headers@), body: self.body@ }
    }
}

/// A character that a header value may hold: a tab, or anything that is
/// neither a control character nor the delete character.
pub open spec fn value_char(c: char) -> bool {
    c == '\t' || (c as u32 >= 32 && c as u32 != 127)
}

/// A text that can stand as a header value.
pub open spec fn valid_value(s: Seq<char>) -> bool {
    forall|i: int| 0 <= i < s.len() ==> value_char(#[trigger] s[i])
}

/// Whether `s` can stand as a header value.
pub fn is_valid_value(s: &str) -> (ok: bool)
    ensures
        ok == valid_value(s@),
{
    let chars = to_chars(s);
    let mut i: usize = 0;
    while i < chars.len()
        invariant
            i <= chars.len(),
            chars@ == s@,
            forall|j: int| 0 <= j < i ==> value_char(#[trigger] s@[j]),
        decreases chars.len() - i,
    {
        let c = chars[i];
        if !(c == '\t' || (c as u32 >= 32 && c as u32 != 127)) {
            assert(!value_char(s@[i as int]));
            return false;
        }
        i += 1;
    }
    true
}

/// The response that sends a client elsewhere: status 307, the address in
/// `location`, no body. The address has to be a valid header value.
pub open spec fn redirection(location: Seq<char>) -> Result<ResponseView, HttpErrorView> {
    if valid_value(location) {
        Ok(
            ResponseView {
                status: 307,
                headers: seq![("location"@, location)],
                body: BodyView::Empty,
            },
        )
    } else {
        Err(HttpErrorView::Http("failed to parse header value"@))
    }
}

/// The outcome of building a response, as a value of specifications.
pub open spec fn built(r: Result<Response, HttpError>) -> Result<ResponseView, HttpErrorView> {
    match r {
        Ok(resp) => Ok(resp@),
        Err(e) => Err(e@),
    }
}

impl Response {
    /// The response that sends a client to `location`.
    pub fn redirect(location: &str) -> (r: Result<Response, HttpError>)
        ensures
            built(r) == redirection(location@),
    {
        if !is_valid_value(location) {
            return Err(HttpError::Http(String::from_str("failed to parse header value")));
        }
        let mut headers: Vec<Header> = Vec::new();
        headers.push(
            Header { name: String::from_str("location"), value: String::from_str(location) },
        );
        let resp = Response { status: 307, headers, body: Body::Empty };
        assert(lines(resp.headers@) == seq![("location"@, location@)]);
        Ok(resp)
    }
}

impl Response {
    /// A response without header lines and without body.
    pub fn empty(status: u16) -> (r: Response)
        ensures
            r@ == (ResponseView {
                status,
                headers: Seq::<(Seq<char>, Seq<char>)>::empty(),
                body: BodyView::Empty,
            }),
    {
        let r = Response { status, headers: Vec::new(), body: Body::Empty };
        assert(lines(r.headers@) == Seq::<(Seq<char>, Seq<char>)>::empty());
        r
    }
}

} // verus!
