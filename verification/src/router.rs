//! The service that picks another service by the path of the request.

use vstd::prelude::*;
use crate::message::{Request, RequestView};
use crate::service::{HttpError, HttpErrorView};
use crate::text::{copy_opt, from_chars, opt_text, push_text, to_chars};
use crate::uri::{assembled, outcome, Uri, UriView};

verus! {

/// Path and query of a text as the `http` crate reads them, or the text of
/// its objection where it does not take the text for path and query.
pub uninterp spec fn path_query_parts(text: Seq<char>) -> Result<
    (Seq<char>, Option<Seq<char>>),
    Seq<char>,
>;

/// Parses `text` with `http::uri::PathAndQuery::try_from` and reads the
/// result with `path` and `query`, or hands out the text of the error.
#[verifier::external_body]
fn parse_path_and_query(text: &str) -> (r: Result<(String, Option<String>), String>)
    ensures
        match r {
            Ok((path, query)) => path_query_parts(text@) == Ok::<_, Seq<char>>(
                (path@, opt_text(query)),
            ),
            Err(m) => path_query_parts(text@) == Err::<(Seq<char>, Option<Seq<char>>), _>(m@),
        },
{
    match hyper::http::uri::PathAndQuery::try_from(text) {
        Ok(pq) => Ok((pq.path().to_string(), pq.query().map(|q| q.to_string()))),
        Err(e) => Err(e.to_string()),
    }
}

/// A service and the beginning of the paths that it is for.
#[derive(Debug)]
pub struct Route<S> {
    pub route: String,
    pub service: S,
}

/// Services in the order in which they are tried.
#[derive(Debug)]
pub struct RouterService<S> {
    pub routes: Vec<Route<S>>,
}

/// The route at `i` is the one for `path`: the first whose prefix the path
/// begins with.
pub open spec fn chosen<S>(routes: Seq<Route<S>>, path: Seq<char>, i: int) -> bool {
    &&& 0 <= i < routes.len()
    &&& routes[i].route@.is_prefix_of(path)
    &&& forall|j: int| 0 <= j < i ==> !(#[trigger] routes[j]).route@.is_prefix_of(path)
}

/// There is no route for `path`.
pub open spec fn unrouted<S>(routes: Seq<Route<S>>, path: Seq<char>) -> bool {
    forall|j: int| 0 <= j < routes.len() ==> !(#[trigger] routes[j]).route@.is_prefix_of(path)
}

/// Path and query of a target in one text.
pub open spec fn path_and_query(uri: UriView) -> Seq<char> {
    match uri.query {
        Some(q) => uri.path + "?"@ + q,
        None => uri.path,
    }
}

/// The target that the chosen service sees: path and query without the
/// prefix of the route but for its last character, read anew; scheme and
/// authority as they were.
pub open spec fn rewritten(uri: UriView, prefix: Seq<char>) -> Result<UriView, HttpErrorView> {
    match path_query_parts(path_and_query(uri).skip(prefix.len() - 1)) {
        Ok((path, query)) => assembled(
            UriView { scheme: uri.scheme, authority: uri.authority, path, query },
        ),
        Err(m) => Err(HttpErrorView::String(m)),
    }
}

/// The place of the route for `path`, if there is one.
pub open spec fn route_for<S>(routes: Seq<Route<S>>, path: Seq<char>) -> Option<int> {
    if exists|i: int| chosen(routes, path, i) {
        Some(choose|i: int| chosen(routes, path, i))
    } else {
        None
    }
}

/// What routing makes of a request: the place of the route for its path and
/// the request as the service of that route sees it. A request without
/// route is refused.
pub open spec fn routed<S>(routes: Seq<Route<S>>, req: RequestView) -> Result<
    (int, RequestView),
    HttpErrorView,
> {
    match route_for(routes, req.uri.path) {
        None => Err(HttpErrorView::String("No route"@)),
        Some(i) => match rewritten(req.uri, routes[i].route@) {
            Ok(uri) => Ok((i, RequestView { uri, ..req })),
            Err(e) => Err(e),
        },
    }
}

/// A path has one chosen route at most, and that is its route.
pub proof fn lemma_chosen_unique<S>(routes: Seq<Route<S>>, path: Seq<char>, i: int)
    requires
        chosen(routes, path, i),
    ensures
        !unrouted(routes, path),
        forall|k: int| chosen(routes, path, k) ==> k == i,
        route_for(routes, path) == Some(i),
{
    assert(routes[i].route@.is_prefix_of(path));
    assert forall|k: int| chosen(routes, path, k) implies k == i by {
        if k < i {
            assert(!routes[k].route@.is_prefix_of(path));
        } else if i < k {
            assert(!routes[i].route@.is_prefix_of(path));
        }
    }
}

/// A path that begins with no prefix has no route.
pub proof fn lemma_unrouted<S>(routes: Seq<Route<S>>, path: Seq<char>)
    requires
        unrouted(routes, path),
    ensures
        route_for(routes, path) is None,
{
    assert forall|i: int| !chosen(routes, path, i) by {
        if 0 <= i < routes.len() {
            assert(!routes[i].route@.is_prefix_of(path));
        }
    }
}

fn begins_with(text: &Vec<char>, prefix: &Vec<char>) -> (r: bool)
    ensures
        r == prefix@.is_prefix_of(text@),
{
    if prefix.len() > text.len() {
        return false;
    }
    let mut i: usize = 0;
    while i < prefix.len()
        invariant
            i <= prefix.len() <= text.len(),
            forall|j: int| 0 <= j < i ==> prefix@[j] == text@[j],
        decreases prefix.len() - i,
    {
        if prefix[i] != text[i] {
            assert(!prefix@.is_prefix_of(text@)) by {
                if prefix@.is_prefix_of(text@) {
                    assert(text@.subrange(0, prefix@.len() as int)[i as int] == prefix@[i as int]);
                }
            }
            return false;
        }
        i += 1;
    }
    assert(prefix@ == text@.subrange(0, prefix@.len() as int));
    true
}

impl<S> RouterService<S> {
    /// A router that tries `routes` in their order.
    pub fn new(routes: Vec<Route<S>>) -> (r: RouterService<S>)
        ensures
            r.routes == routes,
    {
        RouterService { routes }
    }

    /// No route has an empty prefix.
    pub open spec fn wf(&self) -> bool {
        forall|i: int| 0 <= i < self.routes.len() ==> (#[trigger] self.routes@[i]).route@.len() > 0
    }

    /// Whether no route has an empty prefix.
    pub fn is_wf(&self) -> (r: bool)
        ensures
            r == self.wf(),
    {
        let mut i: usize = 0;
        while i < self.routes.len()
            invariant
                i <= self.routes.len(),
                forall|j: int| 0 <= j < i ==> (#[trigger] self.routes@[j]).route@.len() > 0,
            decreases self.routes.len() - i,
        {
            if self.routes[i].route.as_str().is_empty() {
                return false;
            }
            i += 1;
        }
        true
    }

    /// The place of the route for `path`: the first whose prefix the path
    /// begins with.
    pub fn find(&self, path: &str) -> (r: Option<usize>)
        ensures
            match r {
                Some(i) => chosen(self.routes@, path@, i as int),
                None => unrouted(self.routes@, path@),
            },
            route_for(self.routes@, path@) == match r {
                Some(i) => Some(i as int),
                None => None,
            },
    {
        let text = to_chars(path);
        let mut i: usize = 0;
        while i < self.routes.len()
            invariant
                i <= self.routes.len(),
                text@ == path@,
                forall|j: int| 0 <= j < i ==> !(#[trigger] self.routes@[j]).route@.is_prefix_of(path@),
            decreases self.routes.len() - i,
        {
            let prefix = to_chars(self.routes[i].route.as_str());
            if begins_with(&text, &prefix) {
                proof {
                    lemma_chosen_unique(self.routes@, path@, i as int);
                }
                return Some(i);
            }
            i += 1;
        }
        proof {
            lemma_unrouted(self.routes@, path@);
        }
        None
    }

    /// The target that the service of a route sees whose prefix `prefix` the
    /// path begins with.
    pub fn rewrite(uri: &Uri, prefix: &str) -> (r: Result<Uri, HttpError>)
        requires
            prefix@.len() > 0,
            prefix@.is_prefix_of(uri@.path),
        ensures
            outcome(r) == rewritten(uri@, prefix@),
    {
        let mut whole: Vec<char> = Vec::new();
        push_text(&mut whole, uri.path.as_str());
        match &uri.query {
            Some(q) => {
                push_text(&mut whole, "?");
                push_text(&mut whole, q.as_str());
            },
            None => {},
        }
        assert(whole@ == path_and_query(uri@));
        let skip = prefix.unicode_len() - 1;
        let mut rest: Vec<char> = Vec::new();
        let mut i: usize = skip;
        while i < whole.len()
            invariant
                skip <= i <= whole.len(),
                rest@ == whole@.subrange(skip as int, i as int),
            decreases whole.len() - i,
        {
            rest.push(whole[i]);
            i += 1;
        }
        assert(whole@.subrange(skip as int, whole.len() as int) == whole@.skip(skip as int));
        let rest = from_chars(&rest);
        match parse_path_and_query(rest.as_str()) {
            Ok((path, query)) => Uri::from_parts(
                copy_opt(&uri.scheme),
                copy_opt(&uri.authority),
                path,
                query,
            ),
            Err(m) => Err(HttpError::String(m)),
        }
    }

    /// The place of the route for a request, and the request as the service
    /// of that route sees it.
    pub fn call(&self, req: Request) -> (r: Result<(usize, Request), HttpError>)
        requires
            self.wf(),
        ensures
            match routed(self.routes@, req@) {
                Ok((i, out)) => r matches Ok((j, x)) && j == i && x@ == out,
                Err(e) => r matches Err(x) && x@ == e,
            },
    {
        let i = match self.find(req.uri.path.as_str()) {
            Some(i) => i,
            None => {
                return Err(HttpError::message("No route"));
            },
        };
        let Request { method, uri, version, headers } = req;
        match RouterService::<S>::rewrite(&uri, self.routes[i].route.as_str()) {
            Ok(uri) => Ok((i, Request { method, uri, version, headers })),
            Err(e) => Err(e),
        }
    }
}

} // verus!
