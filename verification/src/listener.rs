//! The listener: where connections come in and what their handler is told.

use vstd::prelude::*;
use vstd::string::StringExecFns;
use crate::context::{Context, ContextView};
use crate::text::opt_text;

verus! {

/// Accepts TCP connections at one address.
#[derive(Debug)]
pub struct TcpListener {
    /// The address that is listened at, a host and a port.
    pub listen: String,
}

impl TcpListener {
    /// A listener at `listen`.
    pub fn new(listen: &str) -> (l: TcpListener)
        ensures
            l.listen@ == listen@,
    {
        TcpListener { listen: String::from_str(listen) }
    }

    /// The context with which the handler is called for a connection from
    /// the peer at `addr`: the address and nothing else.
    pub fn handle(&self, addr: Option<String>) -> (ctx: Context)
        ensures
            ctx@ == (ContextView {
                secure: false,
                addr: opt_text(addr),
                alpn: None,
                server_name: None,
            }),
    {
        let mut ctx = Context::default();
        ctx.addr = addr;
        ctx
    }
}

} // verus!
