//! The service that answers from files below a base directory.

use vstd::prelude::*;
use vstd::string::StringExecFns;
use crate::message::{lines, Body, BodyView, Header, Response, ResponseView};
use crate::text::{decimal, decimal_string, from_chars, opt_text, to_chars};

verus! {

/// The path that `Path::join` of std gives for a base path and a path to
/// adjoin to it, on the platform that the library is built for.
pub uninterp spec fn adjoined(base: Seq<char>, rel: Seq<char>) -> Seq<char>;

/// The media type that `mime_guess` has for the extension of a path, if it
/// knows the extension.
pub uninterp spec fn media_type(path: Seq<char>) -> Option<Seq<char>>;

/// Calls `std::path::Path::join`. Both arguments are text, so the joined path
/// is text too; the contract only gives the result its name.
#[verifier::external_body]
fn join_path(base: &str, rel: &str) -> (r: String)
    ensures
        r@ == adjoined(base@, rel@),
{
    std::path::Path::new(base).join(rel).to_string_lossy().into_owned()
}

/// Calls `mime_guess::from_path` and takes the first media type of the guess.
/// The guess looks at the extension of the path alone and reads no file.
#[verifier::external_body]
fn guess_media_type(path: &str) -> (r: Option<String>)
    ensures
        match r {
            Some(m) => media_type(path@) == Some(m@),
            None => media_type(path@) is None,
        },
{
    mime_guess::from_path(path).first_raw().map(|m| m.to_string())
}

/// Serves the files below one directory.
#[derive(Debug)]
pub struct FileService {
    path: String,
}

/// The header lines of a file response: the length, then the media type
/// where one is known.
pub open spec fn file_headers(size: u64, media: Option<Seq<char>>) -> Seq<(Seq<char>, Seq<char>)> {
    let length = ("content-length"@, decimal(size as nat));
    match media {
        Some(m) => seq![length, ("content-type"@, m)],
        None => seq![length],
    }
}

impl FileService {
    /// A service for the files below `path`.
    pub fn new(path: &str) -> (s: FileService)
        ensures
            s.base()@ == path@,
    {
        Self { path: String::from_str(path) }
    }

    /// The directory that is served.
    pub closed spec fn base(&self) -> String {
        self.path
    }

    /// The directory that is served.
    pub fn root(&self) -> (p: &String)
        ensures
            p@ == self.base()@,
    {
        &self.path
    }

    /// The file that a request path stands for: the path without its first
    /// character, adjoined to the base directory. The path is not checked
    /// any further, so it can lead out of the base directory.
    pub fn locate(&self, request_path: &str) -> (file: String)
        requires
            request_path@.len() >= 1,
        ensures
            file@ == adjoined(self.base()@, request_path@.skip(1)),
    {
        let chars = to_chars(request_path);
        let mut rest: Vec<char> = Vec::new();
        let mut i: usize = 1;
        while i < chars.len()
            invariant
                1 <= i <= chars.len(),
                rest@ == chars@.subrange(1, i as int),
            decreases chars.len() - i,
        {
            rest.push(chars[i]);
            i += 1;
        }
        assert(chars@.subrange(1, chars.len() as int) == chars@.skip(1));
        let rel = from_chars(&rest);
        join_path(self.path.as_str(), rel.as_str())
    }

    /// The response for a file that was found: status 200, its size as
    /// `content-length`, the media type named `media` as `content-type`, and
    /// the contents of `file` as the body.
    pub fn found(file: String, size: u64, media: Option<String>) -> (r: Response)
        ensures
            r@ == (ResponseView {
                status: 200,
                headers: file_headers(size, opt_text(media)),
                body: BodyView::File(file@),
            }),
    {
        let mut headers: Vec<Header> = Vec::new();
        headers.push(
            Header { name: String::from_str("content-length"), value: decimal_string(size) },
        );
        match media {
            Some(m) => {
                headers.push(Header { name: String::from_str("content-type"), value: m });
            },
            None => {},
        }
        let r = Response { status: 200, headers, body: Body::File(file) };
        assert(lines(r.headers@) == file_headers(size, opt_text(media)));
        r
    }

    /// The response for the file of `size` bytes that `request_path` stands
    /// for. The media type goes by the extension of the request path.
    pub fn call(&self, request_path: &str, size: u64) -> (r: Response)
        requires
            request_path@.len() >= 1,
        ensures
            r@ == (ResponseView {
                status: 200,
                headers: file_headers(size, media_type(request_path@)),
                body: BodyView::File(adjoined(self.base()@, request_path@.skip(1))),
            }),
    {
        let file = self.locate(request_path);
        let media = guess_media_type(request_path);
        FileService::found(file, size, media)
    }
}

} // verus!
