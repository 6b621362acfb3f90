//! The service that greets.

use vstd::prelude::*;
use vstd::string::StringExecFns;
use crate::message::{lines, Body, BodyView, Request, Response, ResponseView};
use crate::service::HttpError;

verus! {

/// Answers every request with the same greeting.
#[derive(Debug)]
pub struct HelloService {}

impl HelloService {
    /// The answer to `req`: status 200 and the body `Hello World!`, whatever
    /// was asked.
    pub fn call(&self, req: &Request) -> (r: Result<Response, HttpError>)
        ensures
            r matches Ok(resp) && resp@ == (ResponseView {
                status: 200,
                headers: Seq::<(Seq<char>, Seq<char>)>::empty(),
                body: BodyView::Text("Hello World!"@),
            }),
    {
        let resp = Response {
            status: 200,
            headers: Vec::new(),
            body: Body::Text(String::from_str("Hello World!")),
        };
        assert(lines(resp.headers@) == Seq::<(Seq<char>, Seq<char>)>::empty());
        Ok(resp)
    }
}

} // verus!
