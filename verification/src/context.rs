//! Per-connection metadata handed down the handler chain.

use vstd::prelude::*;
use crate::text::{copy_opt, opt_text};

verus! {

/// Metadata of one accepted connection. The listener fills in the address
/// of the peer; a TLS layer adds the protocol and the server name that were
/// settled on.
#[derive(Debug)]
pub struct Context {
    /// Whether the connection is protected by TLS.
    pub secure: bool,
    /// The IP address of the peer, written out.
    pub addr: Option<String>,
    /// The application protocol that TLS has settled on.
    pub alpn: Option<String>,
    /// The server that the client has asked for.
    pub server_name: Option<String>,
}

/// What a [`Context`] is, as a value of specifications.
pub struct ContextView {
    pub secure: bool,
    pub addr: Option<Seq<char>>,
    pub alpn: Option<Seq<char>>,
    pub server_name: Option<Seq<char>>,
}

impl View for Context {
    type V = ContextView;

    open spec fn view(&self) -> ContextView {
        ContextView {
            secure: self.secure,
            addr: opt_text(self.addr),
            alpn: opt_text(self.alpn),
            server_name: opt_text(self.server_name),
        }
    }
}

impl Default for Context {
    /// The context of a connection of which nothing is known.
    fn default() -> (ctx: Context)
        ensures
            ctx@ == (ContextView { secure: false, addr: None, alpn: None, server_name: None }),
    {
        Context { secure: false, addr: None, alpn: None, server_name: None }
    }
}

impl Clone for Context {
    /// A copy of the context, as it goes into every request.
    fn clone(&self) -> (ctx: Context)
        ensures
            ctx@ == self@,
    {
        Context {
            secure: self.secure,
            addr: copy_opt(&self.addr),
            alpn: copy_opt(&self.alpn),
            server_name: copy_opt(&self.server_name),
        }
    }
}

} // verus!
