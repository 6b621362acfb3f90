//! The error type shared by all HTTP services.

use vstd::prelude::*;
use vstd::string::StringExecFns;

verus! {

/// Why a service could not answer a request. Each variant carries the
/// message of the failure it stands for.
#[derive(Debug)]
pub enum HttpError {
    /// A request or response could not be assembled.
    Http(String),
    /// The HTTP connection failed.
    HyperError(String),
    /// A socket or file operation failed.
    IO(String),
    /// A failure described by text alone.
    String(String),
    /// Any other failure.
    Other(String),
}

/// What an [`HttpError`] is, as a value of specifications.
pub enum HttpErrorView {
    Http(Seq<char>),
    HyperError(Seq<char>),
    IO(Seq<char>),
    String(Seq<char>),
    Other(Seq<char>),
}

impl View for HttpError {
    type V = HttpErrorView;

    open spec fn view(&self) -> HttpErrorView {
        match self {
            HttpError::Http(m) => HttpErrorView::Http(m@),
            HttpError::HyperError(m) => HttpErrorView::HyperError(m@),
            HttpError::IO(m) => HttpErrorView::IO(m@),
            HttpError::String(m) => HttpErrorView::String(m@),
            HttpError::Other(m) => HttpErrorView::Other(m@),
        }
    }
}

impl HttpErrorView {
    /// The text shown for the error: what kind it is, then its message.
    pub open spec fn text(self) -> Seq<char> {
        match self {
            HttpErrorView::Http(m) => "HTTP error: "@ + m,
            HttpErrorView::HyperError(m) => "Hyper error: "@ + m,
            HttpErrorView::IO(m) => "IO error: "@ + m,
            HttpErrorView::String(m) => "String error: "@ + m,
            HttpErrorView::Other(m) => "Other error: "@ + m,
        }
    }
}

impl HttpError {
    /// An error described by `message` alone.
    pub fn message(message: &str) -> (e: HttpError)
        ensures
            e@ == HttpErrorView::String(message@),
    {
        HttpError::String(String::from_str(message))
    }

    /// The text shown for the error: what kind it is, then its message.
    pub fn to_string(&self) -> (s: String)
        ensures
            s@ == self@.text(),
    {
        match self {
            HttpError::Http(m) => String::from_str("HTTP error: ").concat(m.as_str()),
            HttpError::HyperError(m) => String::from_str("Hyper error: ").concat(m.as_str()),
            HttpError::IO(m) => String::from_str("IO error: ").concat(m.as_str()),
            HttpError::String(m) => String::from_str("String error: ").concat(m.as_str()),
            HttpError::Other(m) => String::from_str("Other error: ").concat(m.as_str()),
        }
    }
}

} // verus!
