//! Request targets and the normalisation of their paths.

use vstd::prelude::*;
use crate::segments::{free_of, join, join_chars, lemma_join_push, lemma_join_rooted,
    lemma_join_split, lemma_split_free_of, lemma_split_join, lemma_split_leading,
    lemma_split_nonempty, split, split_chars, views};
use crate::service::{HttpError, HttpErrorView};
use crate::text::{copy_chars, copy_opt, from_chars, opt_text, push_text, to_chars};

verus! {

/// The target of a request, in its four parts. An empty `path` stands for a
/// target without path, as in `example.com:443`.
#[derive(Debug)]
pub struct Uri {
    pub scheme: Option<String>,
    pub authority: Option<String>,
    pub path: String,
    pub query: Option<String>,
}

/// What a [`Uri`] is, as a value of specifications.
pub struct UriView {
    pub scheme: Option<Seq<char>>,
    pub authority: Option<Seq<char>>,
    pub path: Seq<char>,
    pub query: Option<Seq<char>>,
}

impl View for Uri {
    type V = UriView;

    open spec fn view(&self) -> UriView {
        UriView {
            scheme: opt_text(self.scheme),
            authority: opt_text(self.authority),
            path: self.path@,
            query: opt_text(self.query),
        }
    }
}

/// The outcome of an operation on targets, as a value of specifications.
pub open spec fn outcome(r: Result<Uri, HttpError>) -> Result<UriView, HttpErrorView> {
    match r {
        Ok(u) => Ok(u@),
        Err(e) => Err(e@),
    }
}

/// Whether four parts form a target: a scheme needs an authority and a path,
/// and an authority with a path needs a scheme.
pub open spec fn assembled(u: UriView) -> Result<UriView, HttpErrorView> {
    if u.scheme is Some {
        if u.authority is None {
            Err(HttpErrorView::String("authority missing"@))
        } else if u.path.len() == 0 {
            Err(HttpErrorView::String("path missing"@))
        } else {
            Ok(u)
        }
    } else if u.authority is Some && u.path.len() > 0 {
        Err(HttpErrorView::String("scheme missing"@))
    } else {
        Ok(u)
    }
}

/// The host and the port of an authority as the `http` crate reads them, or
/// nothing where it does not take the text for an authority.
pub uninterp spec fn authority_parts(text: Seq<char>) -> Option<(Seq<char>, Option<u16>)>;

/// The four parts of a target as the `http` crate reads them from a text, or
/// the text of its objection where it does not take the text for a target.
pub uninterp spec fn target_parts(text: Seq<char>) -> Result<UriView, Seq<char>>;

/// Parses `text` with `http::uri::Authority::from_str` and, where that
/// succeeds, reads the host with `Authority::host` and the port with
/// `Authority::port_u16`. The contract only gives the three results a name.
#[verifier::external_body]
fn parse_authority(text: &str) -> (r: Option<(String, Option<u16>)>)
    ensures
        match r {
            Some((host, port)) => authority_parts(text@) == Some((host@, port)),
            None => authority_parts(text@) is None,
        },
{
    match text.parse::<hyper::http::uri::Authority>() {
        Ok(a) => Some((a.host().to_string(), a.port_u16())),
        Err(_) => None,
    }
}

/// Parses `text` with `http::Uri::from_str` and, where that succeeds, reads
/// the parts with `scheme_str`, `authority`, `path` and `query`; where it
/// fails, hands out the text of the error. The contract only gives the
/// result a name.
#[verifier::external_body]
fn parse_target(text: &str) -> (r: Result<Uri, String>)
    ensures
        match r {
            Ok(u) => target_parts(text@) == Ok::<UriView, Seq<char>>(u@),
            Err(m) => target_parts(text@) == Err::<UriView, Seq<char>>(m@),
        },
{
    match text.parse::<hyper::Uri>() {
        Ok(u) => Ok(
            Uri {
                scheme: u.scheme_str().map(|s| s.to_string()),
                authority: u.authority().map(|a| a.as_str().to_string()),
                path: u.path().to_string(),
                query: u.query().map(|q| q.to_string()),
            },
        ),
        Err(e) => Err(e.to_string()),
    }
}

impl UriView {
    /// The host that the authority names, if there is an authority and it
    /// can be read.
    pub open spec fn host(self) -> Option<Seq<char>> {
        match self.authority {
            Some(a) => match authority_parts(a) {
                Some((host, _)) => Some(host),
                None => None,
            },
            None => None,
        }
    }

    /// The port that the authority names, if it names one.
    pub open spec fn port(self) -> Option<u16> {
        match self.authority {
            Some(a) => match authority_parts(a) {
                Some((_, port)) => port,
                None => None,
            },
            None => None,
        }
    }

    /// The target written out: the scheme with `://`, the authority, the
    /// path, and the query behind a `?`.
    pub open spec fn text(self) -> Seq<char> {
        let scheme = match self.scheme {
            Some(s) => s + "://"@,
            None => Seq::<char>::empty(),
        };
        let authority = match self.authority {
            Some(a) => a,
            None => Seq::<char>::empty(),
        };
        let query = match self.query {
            Some(q) => "?"@ + q,
            None => Seq::<char>::empty(),
        };
        scheme + authority + self.path + query
    }
}

/// The state of a walk over the segments of a path: the segments kept so
/// far, below a first empty one that stands for the root, and whether the
/// path so far ends in a slash.
pub struct Walk {
    pub stack: Seq<Seq<char>>,
    pub trailing: bool,
}

/// A segment that names something: not empty, not `.` and not `..`.
pub open spec fn names(seg: Seq<char>) -> bool {
    seg.len() > 0 && seg != seq!['.'] && seg != seq!['.', '.']
}

/// One step of the walk. An empty segment or `.` is skipped, `..` drops the
/// last kept segment but never the root, any other segment is kept. Only a
/// kept segment leaves the path without a trailing slash.
pub open spec fn step(w: Walk, seg: Seq<char>) -> Walk {
    if seg.len() == 0 || seg == seq!['.'] {
        Walk { stack: w.stack, trailing: true }
    } else if seg == seq!['.', '.'] {
        Walk { stack: if w.stack.len() > 1 { w.stack.drop_last() } else { w.stack }, trailing: true }
    } else {
        Walk { stack: w.stack.push(seg), trailing: false }
    }
}

/// The walk over all of `segs`, from the root.
pub open spec fn walk(segs: Seq<Seq<char>>) -> Walk
    decreases segs.len(),
{
    if segs.len() == 0 {
        Walk { stack: seq![Seq::<char>::empty()], trailing: false }
    } else {
        step(walk(segs.drop_last()), segs.last())
    }
}

/// The segments that a walk leaves, with an empty last one where the path
/// ends in a slash.
pub open spec fn kept(w: Walk) -> Seq<Seq<char>> {
    if w.trailing {
        w.stack.push(Seq::<char>::empty())
    } else {
        w.stack
    }
}

/// The path in normal form: its segments walked from the root and joined
/// again.
pub open spec fn normal_path(path: Seq<char>) -> Seq<char> {
    join(kept(walk(split(path, '/'))), '/')
}

/// The target with its path in normal form. A target whose path keeps its
/// length is left as it is; otherwise the new path takes the place of the
/// old one and the parts are assembled again.
pub open spec fn normalized(u: UriView) -> Result<UriView, HttpErrorView> {
    let path = normal_path(u.path);
    if path.len() == u.path.len() {
        Ok(u)
    } else {
        assembled(UriView { path, ..u })
    }
}

/// The shape of what a walk keeps: the root first, then segments that name
/// something and hold no slash.
pub open spec fn rooted(stack: Seq<Seq<char>>) -> bool {
    &&& stack.len() >= 1
    &&& stack[0].len() == 0
    &&& forall|k: int| 1 <= k < stack.len() ==> names(#[trigger] stack[k])
    &&& free_of(stack, '/')
}

/// A walk over slash-free segments keeps a rooted stack, and after its
/// first step it either ends in a slash or has kept a segment.
pub proof fn lemma_walk_rooted(segs: Seq<Seq<char>>)
    requires
        free_of(segs, '/'),
    ensures
        rooted(walk(segs).stack),
        segs.len() >= 1 ==> walk(segs).trailing || walk(segs).stack.len() > 1,
    decreases segs.len(),
{
    if segs.len() > 0 {
        let front = segs.drop_last();
        assert(free_of(front, '/')) by {
            assert forall|i: int, j: int|
                0 <= i < front.len() && 0 <= j < front[i].len() implies #[trigger] front[i][j]
                != '/' by {
                assert(front[i] == segs[i]);
                assert(segs[i][j] != '/');
            }
        }
        lemma_walk_rooted(front);
        let w = walk(front);
        let seg = segs.last();
        let next = step(w, seg);
        assert forall|i: int, j: int|
            0 <= i < next.stack.len() && 0 <= j < next.stack[i].len() implies #[trigger] next.stack[i][j]
            != '/' by {
            if i < w.stack.len() {
                assert(next.stack[i] == w.stack[i]);
                assert(w.stack[i][j] != '/');
            } else {
                assert(next.stack[i] == seg);
                assert(segs[segs.len() - 1][j] != '/');
            }
        }
        assert forall|k: int| 1 <= k < next.stack.len() implies names(#[trigger] next.stack[k]) by {
            if k < w.stack.len() {
                assert(next.stack[k] == w.stack[k]);
            }
        }
    } else {
        assert(walk(segs).stack[0].len() == 0);
    }
}

/// A walk over the first `k` segments of a rooted stack keeps just those.
proof fn lemma_walk_prefix(stack: Seq<Seq<char>>, k: int)
    requires
        rooted(stack),
        1 <= k <= stack.len(),
    ensures
        walk(stack.take(k)) == (Walk { stack: stack.take(k), trailing: k == 1 }),
    decreases k,
{
    let front = stack.take(k);
    let seg = stack[k - 1];
    assert(front.drop_last() == stack.take(k - 1));
    assert(front.last() == seg);
    assert(walk(front) == step(walk(stack.take(k - 1)), seg));
    if k == 1 {
        assert(stack.take(0).len() == 0);
        assert(walk(stack.take(0)).stack == seq![Seq::<char>::empty()]);
        assert(seg == Seq::<char>::empty());
        assert(front == seq![Seq::<char>::empty()]);
    } else {
        lemma_walk_prefix(stack, k - 1);
        assert(names(seg));
        assert(stack.take(k - 1).push(seg) == front);
    }
}

/// Walking over what a walk has kept changes nothing.
pub proof fn lemma_walk_kept(w: Walk)
    requires
        rooted(w.stack),
        w.trailing || w.stack.len() > 1,
    ensures
        walk(kept(w)) == w,
{
    lemma_walk_prefix(w.stack, w.stack.len() as int);
    assert(w.stack.take(w.stack.len() as int) == w.stack);
    if w.trailing {
        let all = w.stack.push(Seq::<char>::empty());
        assert(all.drop_last() == w.stack);
        assert(all.last().len() == 0);
    }
}

/// What a walk over the segments of a path keeps holds no slash, and it
/// splits into itself when it is joined.
proof fn lemma_kept_splits(path: Seq<char>)
    ensures
        rooted(walk(split(path, '/')).stack),
        walk(split(path, '/')).trailing || walk(split(path, '/')).stack.len() > 1,
        free_of(kept(walk(split(path, '/'))), '/'),
        split(normal_path(path), '/') == kept(walk(split(path, '/'))),
{
    let segs = split(path, '/');
    lemma_split_nonempty(path, '/');
    lemma_split_free_of(path, '/');
    lemma_walk_rooted(segs);
    let w = walk(segs);
    let parts = kept(w);
    assert forall|i: int, j: int|
        0 <= i < parts.len() && 0 <= j < parts[i].len() implies #[trigger] parts[i][j] != '/' by {
        if i < w.stack.len() {
            assert(parts[i] == w.stack[i]);
            assert(w.stack[i][j] != '/');
        }
    }
    lemma_split_join(parts, '/');
}

/// A path in normal form is its own normal form.
pub proof fn lemma_normal_path_idempotent(path: Seq<char>)
    ensures
        normal_path(normal_path(path)) == normal_path(path),
{
    lemma_kept_splits(path);
    lemma_walk_kept(walk(split(path, '/')));
}

/// A path in normal form begins with a slash, and between its slashes
/// stand only segments that name something: none is `.` or `..`, and none
/// is empty but the last, which is empty where the path ends in a slash.
pub proof fn lemma_normal_path_clean(path: Seq<char>)
    ensures
        normal_path(path).len() >= 1,
        normal_path(path)[0] == '/',
        ({
            let segs = split(normal_path(path), '/');
            &&& segs.len() >= 2
            &&& segs[0].len() == 0
            &&& forall|k: int| 1 <= k < segs.len() - 1 ==> names(#[trigger] segs[k])
            &&& names(segs.last()) || segs.last().len() == 0
        }),
{
    lemma_kept_splits(path);
    let w = walk(split(path, '/'));
    let parts = kept(w);
    assert(parts[0] == w.stack[0]);
    lemma_join_rooted(parts, '/');
    assert forall|k: int| 1 <= k < parts.len() - 1 implies names(#[trigger] parts[k]) by {
        assert(parts[k] == w.stack[k]);
    }
    if !w.trailing {
        assert(parts.last() == w.stack[w.stack.len() - 1]);
    }
}

/// The walk over the first `k` segments of a path that begins with a slash
/// never keeps more than it has seen: what it keeps is no longer when
/// joined than those segments are, and as long only where it is those
/// segments.
proof fn lemma_walk_length(segs: Seq<Seq<char>>, k: int)
    requires
        segs.len() >= 1,
        segs[0].len() == 0,
        1 <= k <= segs.len(),
    ensures
        walk(segs.take(k)).stack.len() >= 1,
        join(walk(segs.take(k)).stack, '/').len() <= join(segs.take(k), '/').len(),
        join(walk(segs.take(k)).stack, '/').len() == join(segs.take(k), '/').len() ==> walk(
            segs.take(k),
        ).stack == segs.take(k),
        k >= 2 ==> join(kept(walk(segs.take(k))), '/').len() <= join(segs.take(k), '/').len(),
        k >= 2 && join(kept(walk(segs.take(k))), '/').len() == join(segs.take(k), '/').len()
            ==> kept(walk(segs.take(k))) == segs.take(k),
    decreases k,
{
    let seen = segs.take(k);
    let seg = segs[k - 1];
    assert(seen.drop_last() == segs.take(k - 1));
    assert(seen.last() == seg);
    if k == 1 {
        assert(segs.take(0).len() == 0);
        assert(walk(segs.take(0)).stack == seq![Seq::<char>::empty()]);
        assert(walk(seen) == step(walk(segs.take(0)), seg));
        assert(seg == Seq::<char>::empty());
        assert(seen == seq![Seq::<char>::empty()]);
        assert(walk(seen).stack == seen);
    } else {
        let before = segs.take(k - 1);
        lemma_walk_length(segs, k - 1);
        let w = walk(before);
        let next = step(w, seg);
        assert(walk(seen) == next);
        assert(before.push(seg) == seen);
        lemma_join_push(before, seg, '/');
        if w.stack.len() > 1 {
            let front = w.stack.drop_last();
            assert(front.push(w.stack.last()) == w.stack);
            lemma_join_push(front, w.stack.last(), '/');
        }
        if next.trailing {
            lemma_join_push(next.stack, Seq::<char>::empty(), '/');
            if seg.len() == 0 {
                assert(seg == Seq::<char>::empty());
            }
        } else {
            lemma_join_push(w.stack, seg, '/');
        }
    }
}

/// A path that begins with a slash is never lengthened by its normal form,
/// and keeps its length only where it is in normal form already.
pub proof fn lemma_normal_path_length(path: Seq<char>)
    requires
        path.len() >= 1,
        path[0] == '/',
    ensures
        normal_path(path).len() <= path.len(),
        normal_path(path).len() == path.len() ==> normal_path(path) == path,
{
    let segs = split(path, '/');
    lemma_split_leading(path, '/');
    lemma_join_split(path, '/');
    lemma_walk_length(segs, segs.len() as int);
    assert(segs.take(segs.len() as int) == segs);
}

/// The path of a normalised target whose path began with a slash is the
/// normal form of that path and no longer than it; the other parts are
/// what they were.
pub proof fn lemma_normalized_path(u: UriView)
    requires
        u.path.len() >= 1,
        u.path[0] == '/',
    ensures
        normalized(u) matches Ok(v) ==> {
            &&& v.path == normal_path(u.path)
            &&& v.path.len() <= u.path.len()
            &&& v.scheme == u.scheme
            &&& v.authority == u.authority
            &&& v.query == u.query
        },
{
    lemma_normal_path_length(u.path);
}

/// Normalising a target twice gives what normalising it once gives, and
/// normalising never touches the query.
pub proof fn lemma_normalize_idempotent(u: UriView)
    ensures
        normalized(u) matches Ok(v) ==> normalized(v) == Ok::<UriView, HttpErrorView>(v)
            && v.query == u.query,
{
    lemma_normal_path_idempotent(u.path);
}

/// Operations on request targets.
pub trait UriExt: Sized {
    /// The target with its path in normal form.
    fn normalize_path(self) -> Result<Uri, HttpError>;
}

impl Uri {
    /// The target that `text` stands for, if it stands for one.
    pub fn parse(text: &str) -> (r: Result<Uri, HttpError>)
        ensures
            outcome(r) == match target_parts(text@) {
                Ok(u) => Ok::<UriView, HttpErrorView>(u),
                Err(m) => Err(HttpErrorView::String(m)),
            },
    {
        match parse_target(text) {
            Ok(u) => Ok(u),
            Err(m) => Err(HttpError::String(m)),
        }
    }

    /// The host and the port that an authority names, if it can be read.
    pub fn authority(text: &str) -> (r: Option<(String, Option<u16>)>)
        ensures
            match r {
                Some((host, port)) => authority_parts(text@) == Some((host@, port)),
                None => authority_parts(text@) is None,
            },
    {
        parse_authority(text)
    }

    /// The host that the authority names.
    pub fn host(&self) -> (r: Option<String>)
        ensures
            opt_text(r) == self@.host(),
    {
        match &self.authority {
            Some(a) => match parse_authority(a.as_str()) {
                Some((host, _)) => Some(host),
                None => None,
            },
            None => None,
        }
    }

    /// The port that the authority names.
    pub fn port(&self) -> (r: Option<u16>)
        ensures
            r == self@.port(),
    {
        match &self.authority {
            Some(a) => match parse_authority(a.as_str()) {
                Some((_, port)) => port,
                None => None,
            },
            None => None,
        }
    }

    /// The target written out.
    pub fn to_string(&self) -> (s: String)
        ensures
            s@ == self@.text(),
    {
        let mut out: Vec<char> = Vec::new();
        match &self.scheme {
            Some(scheme) => {
                push_text(&mut out, scheme.as_str());
                push_text(&mut out, "://");
            },
            None => {},
        }
        match &self.authority {
            Some(a) => {
                push_text(&mut out, a.as_str());
            },
            None => {},
        }
        push_text(&mut out, self.path.as_str());
        match &self.query {
            Some(q) => {
                push_text(&mut out, "?");
                push_text(&mut out, q.as_str());
            },
            None => {},
        }
        assert(out@ == self@.text());
        from_chars(&out)
    }

    /// A copy of the target.
    pub fn copy(&self) -> (u: Uri)
        ensures
            u@ == self@,
    {
        Uri {
            scheme: copy_opt(&self.scheme),
            authority: copy_opt(&self.authority),
            path: self.path.clone(),
            query: copy_opt(&self.query),
        }
    }

    /// A target made of the four parts, where they form one.
    pub fn from_parts(
        scheme: Option<String>,
        authority: Option<String>,
        path: String,
        query: Option<String>,
    ) -> (r: Result<Uri, HttpError>)
        ensures
            outcome(r) == assembled(
                UriView {
                    scheme: opt_text(scheme),
                    authority: opt_text(authority),
                    path: path@,
                    query: opt_text(query),
                },
            ),
    {
        let has_path = !path.as_str().is_empty();
        if scheme.is_some() {
            if authority.is_none() {
                return Err(HttpError::message("authority missing"));
            }
            if !has_path {
                return Err(HttpError::message("path missing"));
            }
        } else if authority.is_some() && has_path {
            return Err(HttpError::message("scheme missing"));
        }
        Ok(Uri { scheme, authority, path, query })
    }
}

impl UriExt for Uri {
    fn normalize_path(self) -> (r: Result<Uri, HttpError>)
        ensures
            outcome(r) == normalized(self@),
    {
        let chars = to_chars(self.path.as_str());
        let segs = split_chars(&chars, '/');
        let mut stack: Vec<Vec<char>> = Vec::new();
        stack.push(Vec::new());
        let mut trailing = false;
        assert(views(stack@) == seq![Seq::<char>::empty()]);
        let mut i: usize = 0;
        while i < segs.len()
            invariant
                i <= segs.len(),
                stack.len() >= 1,
                walk(views(segs@).take(i as int)) == (Walk { stack: views(stack@), trailing }),
            decreases segs.len() - i,
        {
            let seg = &segs[i];
            let ghost before = views(stack@);
            proof {
                let next = views(segs@).take(i + 1);
                assert(next.drop_last() == views(segs@).take(i as int));
                assert(next.last() == seg@);
            }
            if seg.len() == 0 || (seg.len() == 1 && seg[0] == '.') {
                assert(seg@.len() == 1 ==> seg@ == seq!['.']);
                trailing = true;
            } else if seg.len() == 2 && seg[0] == '.' && seg[1] == '.' {
                assert(seg@ == seq!['.', '.']);
                trailing = true;
                if stack.len() > 1 {
                    stack.pop();
                    assert(views(stack@) == before.drop_last());
                }
            } else {
                assert(seg@ != seq!['.']) by {
                    if seg@ == seq!['.'] {
                        assert(seg@.len() == 1 && seg@[0] == '.');
                    }
                }
                assert(seg@ != seq!['.', '.']) by {
                    if seg@ == seq!['.', '.'] {
                        assert(seg@.len() == 2 && seg@[0] == '.' && seg@[1] == '.');
                    }
                }
                trailing = false;
                stack.push(copy_chars(seg));
                assert(views(stack@) == before.push(seg@));
            }
            i += 1;
        }
        assert(views(segs@).take(segs.len() as int) == views(segs@));
        if trailing {
            let ghost before = views(stack@);
            stack.push(Vec::new());
            assert(views(stack@) == before.push(Seq::<char>::empty()));
        }
        let path = join_chars(&stack, '/');
        if path.len() != chars.len() {
            Uri::from_parts(self.scheme, self.authority, from_chars(&path), self.query)
        } else {
            Ok(self)
        }
    }
}

} // verus!
