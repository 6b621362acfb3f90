//! The TLS layers: which certificate and handler a client gets, and what
//! the handler behind the layer is told about the connection.

use vstd::prelude::*;
use vstd::string::StringExecFns;
use vstd::utf8::{decode_utf8, valid_utf8};
use crate::context::{Context, ContextView};
use crate::handler::{texts, Handler};
use crate::text::opt_text;

verus! {

/// Whether a server name fits a pattern as `wildmatch` reads it: `*` in the
/// pattern stands for any characters, `?` for any one.
pub uninterp spec fn wild_match(pattern: Seq<char>, name: Seq<char>) -> bool;

/// Makes a matcher with `wildmatch::WildMatch::new` and asks it with
/// `matches`.
#[verifier::external_body]
fn pattern_matches(pattern: &str, name: &str) -> (r: bool)
    ensures
        r == wild_match(pattern@, name@),
{
    wildmatch::WildMatch::new(pattern).matches(name)
}

/// Calls `String::from_utf8`, which gives the text that the bytes encode
/// exactly where they are valid UTF-8.
#[verifier::external_body]
fn text_of(bytes: Vec<u8>) -> (r: Option<String>)
    ensures
        match r {
            Some(s) => valid_utf8(bytes@) && s@ == decode_utf8(bytes@),
            None => !valid_utf8(bytes@),
        },
{
    String::from_utf8(bytes).ok()
}

/// Why a connection could not be handed on.
#[derive(Debug, PartialEq, Eq, Structural)]
pub enum TlsError {
    /// The protocol that was settled on is no text.
    InvalidProtocol,
}

/// What a TLS server is set up with, besides its certificate.
#[derive(Debug)]
pub struct ServerSettings {
    /// The protocols that are offered, the best liked first.
    pub alpn_protocols: Vec<Vec<u8>>,
    /// Whether the secrets of a session can be handed to the kernel.
    pub enable_secret_extraction: bool,
}

/// The byte strings of `v` as values of specifications.
pub open spec fn byte_strings(v: Seq<Vec<u8>>) -> Seq<Seq<u8>> {
    Seq::new(v.len(), |i: int| v[i]@)
}

/// The protocols to offer for a handler that wants `wanted`: each as its
/// bytes, or none where the handler does not care.
pub open spec fn offered(wanted: Option<Seq<Seq<char>>>) -> Seq<Seq<u8>> {
    match wanted {
        Some(ps) => Seq::new(ps.len(), |i: int| vstd::utf8::encode_utf8(ps[i])),
        None => Seq::<Seq<u8>>::empty(),
    }
}

/// The settings of a TLS server before a handler that wants the protocols
/// `alpn`.
pub fn create_config(alpn: &Option<Vec<String>>, ktls: bool) -> (s: ServerSettings)
    ensures
        byte_strings(s.alpn_protocols@) == offered(
            match *alpn {
                Some(v) => Some(texts(v@)),
                None => None,
            },
        ),
        s.enable_secret_extraction == ktls,
{
    let mut out: Vec<Vec<u8>> = Vec::new();
    match alpn {
        Some(protocols) => {
            let mut i: usize = 0;
            while i < protocols.len()
                invariant
                    i <= protocols.len(),
                    byte_strings(out@) == offered(Some(texts(protocols@))).take(i as int),
                decreases protocols.len() - i,
            {
                let ghost before = byte_strings(out@);
                let bytes = protocols[i].as_str().as_bytes_vec();
                out.push(bytes);
                assert(byte_strings(out@) == before.push(
                    vstd::utf8::encode_utf8(protocols@[i as int]@),
                ));
                i += 1;
            }
            assert(offered(Some(texts(protocols@))).take(protocols.len() as int) == offered(
                Some(texts(protocols@)),
            ));
        },
        None => {},
    }
    ServerSettings { alpn_protocols: out, enable_secret_extraction: ktls }
}

/// What the handler behind a TLS layer is told after a handshake: the
/// connection is secure, the address of the peer is what it was, and the
/// protocol and the server name are those that were settled on. A protocol
/// that is no text ends the connection.
pub open spec fn settled(
    ctx: ContextView,
    alpn: Option<Seq<u8>>,
    server_name: Option<Seq<char>>,
) -> Result<ContextView, TlsError> {
    match alpn {
        Some(bytes) => if valid_utf8(bytes) {
            Ok(
                ContextView {
                    secure: true,
                    addr: ctx.addr,
                    alpn: Some(decode_utf8(bytes)),
                    server_name,
                },
            )
        } else {
            Err(TlsError::InvalidProtocol)
        },
        None => Ok(ContextView { secure: true, addr: ctx.addr, alpn: None, server_name }),
    }
}

/// The outcome of a handshake, as a value of specifications.
pub open spec fn told(r: Result<Context, TlsError>) -> Result<ContextView, TlsError> {
    match r {
        Ok(c) => Ok(c@),
        Err(e) => Err(e),
    }
}

fn settle(ctx: Context, alpn: Option<Vec<u8>>, server_name: Option<String>) -> (r: Result<
    Context,
    TlsError,
>)
    ensures
        told(r) == settled(
            ctx@,
            match alpn {
                Some(b) => Some(b@),
                None => None,
            },
            opt_text(server_name),
        ),
{
    let alpn = match alpn {
        Some(bytes) => match text_of(bytes) {
            Some(s) => Some(s),
            None => {
                return Err(TlsError::InvalidProtocol);
            },
        },
        None => None,
    };
    Ok(Context { secure: true, addr: ctx.addr, alpn, server_name })
}

/// A handler and the pattern of the server names that it is for.
#[derive(Debug)]
pub struct SniHandler<H> {
    pub hostname: String,
    pub handler: H,
}

impl<H> SniHandler<H> {
    /// An entry for the server names that fit `hostname`.
    pub fn new(hostname: &str, handler: H) -> (s: SniHandler<H>)
        ensures
            s.hostname@ == hostname@,
            s.handler == handler,
    {
        SniHandler { hostname: String::from_str(hostname), handler }
    }
}

/// A TLS layer with one certificate, which shakes hands at once.
#[derive(Debug)]
pub struct TlsHandler<H> {
    pub handler: H,
    pub ktls: bool,
}

/// A TLS layer that reads the client's greeting first and picks certificate
/// and handler by the server name in it.
#[derive(Debug)]
pub struct LazyTlsHandler<H> {
    pub handler: H,
    pub ktls: bool,
    pub sni: Vec<SniHandler<H>>,
}

impl<H> Handler for TlsHandler<H> {
    /// What comes out of a TLS layer is up to the handler behind it.
    fn alpn_protocols(&self) -> (r: Option<Vec<String>>)
        ensures
            r is None,
    {
        None
    }
}

impl<H> Handler for LazyTlsHandler<H> {
    /// What comes out of a TLS layer is up to the handler behind it.
    fn alpn_protocols(&self) -> (r: Option<Vec<String>>)
        ensures
            r is None,
    {
        None
    }
}

impl<H> TlsHandler<H> {
    /// A layer before `handler`. The kernel takes over the session only
    /// where `ktls` says so.
    pub fn new(ktls: Option<bool>, handler: H) -> (t: TlsHandler<H>)
        ensures
            t.handler == handler,
            t.ktls == (ktls == Some(true)),
    {
        let ktls = match ktls {
            Some(k) => k,
            None => false,
        };
        TlsHandler { handler, ktls }
    }

    /// What the handler behind the layer is told after a handshake that
    /// settled on the protocol `alpn` for the server `server_name`.
    pub fn handle(&self, ctx: Context, alpn: Option<Vec<u8>>, server_name: Option<String>) -> (r:
        Result<Context, TlsError>)
        ensures
            told(r) == settled(
                ctx@,
                match alpn {
                    Some(b) => Some(b@),
                    None => None,
                },
                opt_text(server_name),
            ),
    {
        settle(ctx, alpn, server_name)
    }
}

/// The place of the first entry whose pattern fits `name`, where `i` is it.
pub open spec fn first_fit<H>(sni: Seq<SniHandler<H>>, name: Seq<char>, i: int) -> bool {
    &&& 0 <= i < sni.len()
    &&& wild_match(sni[i].hostname@, name)
    &&& forall|j: int| 0 <= j < i ==> !wild_match((#[trigger] sni[j]).hostname@, name)
}

/// No entry has a pattern that fits `name`.
pub open spec fn no_fit<H>(sni: Seq<SniHandler<H>>, name: Seq<char>) -> bool {
    forall|j: int| 0 <= j < sni.len() ==> !wild_match((#[trigger] sni[j]).hostname@, name)
}

/// The place of the entry for a client that asks for the server `name`: the
/// first whose pattern fits. A client that names no server has none, and
/// so has one whose server no pattern fits.
pub open spec fn entry_for<H>(sni: Seq<SniHandler<H>>, name: Option<Seq<char>>) -> Option<int> {
    match name {
        Some(n) => if exists|i: int| first_fit(sni, n, i) {
            Some(choose|i: int| first_fit(sni, n, i))
        } else {
            None
        },
        None => None,
    }
}

/// A server name has one first fit at most, and that is its entry.
pub proof fn lemma_first_fit_unique<H>(sni: Seq<SniHandler<H>>, name: Seq<char>, i: int)
    requires
        first_fit(sni, name, i),
    ensures
        !no_fit(sni, name),
        entry_for(sni, Some(name)) == Some(i),
{
    assert(wild_match(sni[i].hostname@, name));
    assert forall|k: int| first_fit(sni, name, k) implies k == i by {
        if k < i {
            assert(!wild_match(sni[k].hostname@, name));
        } else if i < k {
            assert(!wild_match(sni[i].hostname@, name));
        }
    }
}

/// A server name that no pattern fits has no entry.
pub proof fn lemma_no_fit<H>(sni: Seq<SniHandler<H>>, name: Seq<char>)
    requires
        no_fit(sni, name),
    ensures
        entry_for(sni, Some(name)) is None,
{
    assert forall|i: int| !first_fit(sni, name, i) by {
        if 0 <= i < sni.len() {
            assert(!wild_match(sni[i].hostname@, name));
        }
    }
}

impl<H> LazyTlsHandler<H> {
    /// A layer before `handler`, with the entries `sni` for single server
    /// names.
    pub fn new(ktls: Option<bool>, handler: H, sni: Vec<SniHandler<H>>) -> (t: LazyTlsHandler<H>)
        ensures
            t.handler == handler,
            t.sni == sni,
            t.ktls == (ktls == Some(true)),
    {
        let ktls = match ktls {
            Some(k) => k,
            None => false,
        };
        LazyTlsHandler { handler, ktls, sni }
    }

    /// The place of the entry for a client that asks for `server_name`: the
    /// first whose pattern fits. A client that names no server, or one that
    /// no pattern fits, gets none and so the default.
    pub fn select(&self, server_name: Option<&str>) -> (r: Option<usize>)
        ensures
            match (r, server_name) {
                (Some(i), Some(name)) => first_fit(self.sni@, name@, i as int),
                (Some(_), None) => false,
                (None, Some(name)) => no_fit(self.sni@, name@),
                (None, None) => true,
            },
            entry_for(
                self.sni@,
                match server_name {
                    Some(n) => Some(n@),
                    None => None,
                },
            ) == match r {
                Some(i) => Some(i as int),
                None => None,
            },
    {
        let name = match server_name {
            Some(n) => n,
            None => {
                return None;
            },
        };
        let mut i: usize = 0;
        while i < self.sni.len()
            invariant
                i <= self.sni.len(),
                server_name == Some(name),
                forall|j: int| 0 <= j < i ==> !wild_match((#[trigger] self.sni@[j]).hostname@, name@),
            decreases self.sni.len() - i,
        {
            if pattern_matches(self.sni[i].hostname.as_str(), name) {
                proof {
                    lemma_first_fit_unique(self.sni@, name@, i as int);
                }
                return Some(i);
            }
            i += 1;
        }
        proof {
            lemma_no_fit(self.sni@, name@);
        }
        None
    }

    /// The handler for a client that asks for `server_name`: that of its
    /// entry, or the default where it has none.
    pub fn handler_for(&self, server_name: Option<&str>) -> (h: &H)
        ensures
            *h == match entry_for(
                self.sni@,
                match server_name {
                    Some(n) => Some(n@),
                    None => None,
                },
            ) {
                Some(i) => self.sni@[i].handler,
                None => self.handler,
            },
    {
        match self.select(server_name) {
            Some(i) => &self.sni[i].handler,
            None => &self.handler,
        }
    }

    /// What the handler behind the layer is told after a handshake that
    /// settled on the protocol `alpn` for the server `server_name`.
    pub fn handle(&self, ctx: Context, alpn: Option<Vec<u8>>, server_name: Option<String>) -> (r:
        Result<Context, TlsError>)
        ensures
            told(r) == settled(
                ctx@,
                match alpn {
                    Some(b) => Some(b@),
                    None => None,
                },
                opt_text(server_name),
            ),
    {
        settle(ctx, alpn, server_name)
    }
}

/// After a handshake the handler behind a TLS layer is told that the
/// connection is secure, and the protocol and the server name are those
/// that were settled on; the address of the peer stays what it was. Only a
/// protocol that is no text keeps the handler from being told.
pub proof fn lemma_settled(ctx: ContextView, alpn: Option<Seq<u8>>, server_name: Option<Seq<char>>)
    ensures
        settled(ctx, alpn, server_name) matches Ok(after) ==> {
            &&& after.secure
            &&& after.addr == ctx.addr
            &&& after.server_name == server_name
            &&& match alpn {
                Some(bytes) => after.alpn == Some(decode_utf8(bytes)),
                None => after.alpn is None,
            }
        },
        settled(ctx, alpn, server_name) is Err <==> (alpn matches Some(bytes) && !valid_utf8(bytes)),
{
}

} // verus!
