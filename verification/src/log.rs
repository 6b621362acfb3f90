//! The layer that writes one line to the access log for each request.

use std::fmt::Write;
use vstd::prelude::*;
use vstd::string::StringExecFns;
use crate::context::Context;
use crate::message::{first_value, header, Request, RequestView, Response, ResponseView};
use crate::text::{decimal, from_chars, opt_text, push_decimal, push_text};
use crate::uri::{Uri, UriView};

verus! {

/// A point in time written by `chrono` after a pattern: the time that lies
/// `secs` seconds after the beginning of 1970, read in the zone that is
/// `offset` seconds east of Greenwich. Nothing where `chrono` cannot hold
/// the time or the zone, or does not know the pattern.
pub uninterp spec fn time_text(secs: i64, offset: i32, pattern: Seq<char>) -> Option<Seq<char>>;

/// Makes the zone with `chrono::FixedOffset::east_opt` and the time with
/// `chrono::DateTime::from_timestamp`, moves the time into the zone with
/// `with_timezone`, and writes it with `format`.
#[verifier::external_body]
fn write_time(secs: i64, offset: i32, pattern: &str) -> (r: Option<String>)
    ensures
        opt_text(r) == time_text(secs, offset, pattern@),
{
    let zone = chrono::FixedOffset::east_opt(offset)?;
    let time = chrono::DateTime::from_timestamp(secs, 0)?.with_timezone(&zone);
    let mut out = String::new();
    write!(out, "{}", time.format(pattern)).ok()?;
    Some(out)
}

/// What is known of a request before it is answered.
#[derive(Debug)]
pub struct Entry {
    /// The address of the client, or `-`.
    pub remote_addr: String,
    /// When the request came in.
    pub time_local: String,
    /// Path and query of the request.
    pub request: String,
    /// The `referer` line of the request, or `-`.
    pub referer: String,
    /// The `user-agent` line of the request, or `-`.
    pub user_agent: String,
}

/// What an [`Entry`] is, as a value of specifications.
pub struct EntryView {
    pub remote_addr: Seq<char>,
    pub time_local: Seq<char>,
    pub request: Seq<char>,
    pub referer: Seq<char>,
    pub user_agent: Seq<char>,
}

impl View for Entry {
    type V = EntryView;

    open spec fn view(&self) -> EntryView {
        EntryView {
            remote_addr: self.remote_addr@,
            time_local: self.time_local@,
            request: self.request@,
            referer: self.referer@,
            user_agent: self.user_agent@,
        }
    }
}

/// A text, or `-` where there is none.
pub open spec fn or_dash(o: Option<Seq<char>>) -> Seq<char> {
    match o {
        Some(s) => s,
        None => "-"@,
    }
}

/// Path and query of a target as the log shows them. A target without path
/// shows as `/`.
pub open spec fn path_and_query(uri: UriView) -> Seq<char> {
    if uri.scheme is None && uri.authority is Some {
        "/"@
    } else {
        let path = if uri.path.len() == 0 {
            "/"@
        } else {
            uri.path
        };
        match uri.query {
            Some(q) => path + "?"@ + q,
            None => path,
        }
    }
}

/// What is known of a request that came in at `time` over a connection from
/// `addr`.
pub open spec fn entry_for(addr: Option<Seq<char>>, time: Seq<char>, req: RequestView) -> EntryView {
    EntryView {
        remote_addr: or_dash(addr),
        time_local: time,
        request: path_and_query(req.uri),
        referer: or_dash(first_value(req.headers, "referer"@)),
        user_agent: or_dash(first_value(req.headers, "user-agent"@)),
    }
}

/// One line of the log: the client, two fields that are never known, the
/// time, the request in quotes, status and size of the answer, and referer
/// and user agent in quotes.
pub open spec fn line(e: EntryView, status: u16, bytes: u64) -> Seq<char> {
    e.remote_addr + " - - "@ + e.time_local + " \""@ + e.request + "\" "@ + decimal(status as nat)
        + " "@ + decimal(bytes as nat) + " \""@ + e.referer + "\" \""@ + e.user_agent + "\"\n"@
}

/// Status and size that the log shows for the outcome of a request: those
/// of the answer, or 500 and nothing where the service failed.
pub open spec fn result_fields(answer: Option<ResponseView>) -> (u16, u64) {
    match answer {
        Some(r) => (r.status, r.body.lower_bound() as u64),
        None => (500, 0),
    }
}

fn text_or_dash(o: Option<&String>) -> (s: String)
    ensures
        s@ == or_dash(
            match o {
                Some(t) => Some(t@),
                None => None,
            },
        ),
{
    match o {
        Some(t) => t.clone(),
        None => String::from_str("-"),
    }
}

/// Writes the access log.
#[derive(Debug)]
pub struct LogLayer {}

impl LogLayer {
    /// The pattern after which the log shows a time.
    pub open spec fn time_pattern() -> Seq<char> {
        "[%d/%b/%Y:%H:%M:%S %z]"@
    }

    /// The time as the log shows it: day, month and year, the time of day,
    /// and the zone.
    pub fn time_local(secs: i64, offset: i32) -> (r: Option<String>)
        ensures
            opt_text(r) == time_text(secs, offset, LogLayer::time_pattern()),
    {
        write_time(secs, offset, "[%d/%b/%Y:%H:%M:%S %z]")
    }

    /// Path and query of a target as the log shows them.
    pub fn request_text(uri: &Uri) -> (s: String)
        ensures
            s@ == path_and_query(uri@),
    {
        let mut out: Vec<char> = Vec::new();
        if uri.scheme.is_none() && uri.authority.is_some() {
            push_text(&mut out, "/");
        } else {
            if uri.path.as_str().is_empty() {
                push_text(&mut out, "/");
            } else {
                push_text(&mut out, uri.path.as_str());
            }
            match &uri.query {
                Some(q) => {
                    push_text(&mut out, "?");
                    push_text(&mut out, q.as_str());
                },
                None => {},
            }
        }
        assert(out@ == path_and_query(uri@));
        from_chars(&out)
    }

    /// What is known of a request when it comes in.
    pub fn begin(ctx: &Context, req: &Request, time_local: String) -> (e: Entry)
        ensures
            e@ == entry_for(opt_text(ctx.addr), time_local@, req@),
    {
        Entry {
            remote_addr: text_or_dash(ctx.addr.as_ref()),
            time_local,
            request: LogLayer::request_text(&req.uri),
            referer: text_or_dash(header(&req.headers, "referer")),
            user_agent: text_or_dash(header(&req.headers, "user-agent")),
        }
    }

    /// One line of the log.
    pub fn format(entry: &Entry, status: u16, bytes: u64) -> (s: String)
        ensures
            s@ == line(entry@, status, bytes),
    {
        let mut out: Vec<char> = Vec::new();
        push_text(&mut out, entry.remote_addr.as_str());
        push_text(&mut out, " - - ");
        push_text(&mut out, entry.time_local.as_str());
        push_text(&mut out, " \"");
        push_text(&mut out, entry.request.as_str());
        push_text(&mut out, "\" ");
        push_decimal(&mut out, status as u64);
        push_text(&mut out, " ");
        push_decimal(&mut out, bytes);
        push_text(&mut out, " \"");
        push_text(&mut out, entry.referer.as_str());
        push_text(&mut out, "\" \"");
        push_text(&mut out, entry.user_agent.as_str());
        push_text(&mut out, "\"\n");
        from_chars(&out)
    }

    /// The line for a request and what came of it: the answer, or nothing
    /// where the service failed.
    pub fn call(entry: &Entry, answer: Option<&Response>) -> (s: String)
        ensures
            s@ == line(
                entry@,
                result_fields(
                    match answer {
                        Some(r) => Some(r@),
                        None => None,
                    },
                ).0,
                result_fields(
                    match answer {
                        Some(r) => Some(r@),
                        None => None,
                    },
                ).1,
            ),
    {
        match answer {
            Some(r) => LogLayer::format(entry, r.status, r.body.lower_bound()),
            None => LogLayer::format(entry, 500, 0),
        }
    }
}

} // verus!
