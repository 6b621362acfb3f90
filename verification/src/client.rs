//! The client side: where to connect for an upstream, and the pool in which
//! connections wait to be used again.

use std::collections::VecDeque;
use vstd::prelude::*;
use vstd::string::StringExecFns;
use crate::message::Version;
use crate::service::{HttpError, HttpErrorView};
use crate::text::{decimal, from_chars, opt_text, push_decimal, push_text, same};
use crate::uri::{Uri, UriView};

verus! {

/// A connection to an upstream server, by the protocol that is spoken on
/// it. `S` is what requests are sent with.
#[derive(Debug)]
pub enum Connection<S> {
    Http1(S),
    Http2(S),
}

impl<S> Connection<S> {
    /// What requests are sent with on this connection.
    pub fn sender(&self) -> (s: &S)
        ensures
            match *self {
                Connection::Http1(x) => *s == x,
                Connection::Http2(x) => *s == x,
            },
    {
        match self {
            Connection::Http1(x) => x,
            Connection::Http2(x) => x,
        }
    }

    /// The connection for a sender on which `version` is spoken.
    pub fn new(version: Version, sender: S) -> (c: Connection<S>)
        ensures
            c == if version == Version::Http2 {
                Connection::Http2(sender)
            } else {
                Connection::Http1(sender)
            },
    {
        match version {
            Version::Http2 => Connection::Http2(sender),
            _ => Connection::Http1(sender),
        }
    }
}

/// How an upstream is reached.
#[derive(Debug)]
pub enum Dial {
    /// Through the Unix domain socket at `path`.
    Unix { path: String },
    /// Over TCP to `address`, a host and a port.
    Tcp { address: String },
    /// Over TCP to `address`, with TLS for the server named `host`.
    Tls { address: String, host: String },
}

/// What a [`Dial`] is, as a value of specifications.
pub enum DialView {
    Unix { path: Seq<char> },
    Tcp { address: Seq<char> },
    Tls { address: Seq<char>, host: Seq<char> },
}

impl View for Dial {
    type V = DialView;

    open spec fn view(&self) -> DialView {
        match self {
            Dial::Unix { path } => DialView::Unix { path: path@ },
            Dial::Tcp { address } => DialView::Tcp { address: address@ },
            Dial::Tls { address, host } => DialView::Tls { address: address@, host: host@ },
        }
    }
}

/// A host and a port as one address.
pub open spec fn socket_address(host: Seq<char>, port: u16) -> Seq<char> {
    host + ":"@ + decimal(port as nat)
}

/// How the upstream with the given parts is reached. The scheme decides:
/// `unix` takes the path for a socket, `http` and `https` need a host and
/// go to port 80 and 443 where none is named.
pub open spec fn dial_for(
    scheme: Option<Seq<char>>,
    path: Seq<char>,
    host: Option<Seq<char>>,
    port: Option<u16>,
) -> Result<DialView, HttpErrorView> {
    match scheme {
        None => Err(HttpErrorView::String("No scheme specified"@)),
        Some(s) => if s == "unix"@ {
            Ok(DialView::Unix { path })
        } else if s == "http"@ {
            match host {
                None => Err(HttpErrorView::String("No host specified"@)),
                Some(h) => Ok(
                    DialView::Tcp {
                        address: socket_address(
                            h,
                            match port {
                                Some(p) => p,
                                None => 80,
                            },
                        ),
                    },
                ),
            }
        } else if s == "https"@ {
            match host {
                None => Err(HttpErrorView::String("No host specified"@)),
                Some(h) => Ok(
                    DialView::Tls {
                        address: socket_address(
                            h,
                            match port {
                                Some(p) => p,
                                None => 443,
                            },
                        ),
                        host: h,
                    },
                ),
            }
        } else {
            Err(HttpErrorView::String("Invalid scheme"@))
        },
    }
}

/// The outcome of choosing how to connect, as a value of specifications.
pub open spec fn dialled(r: Result<Dial, HttpError>) -> Result<DialView, HttpErrorView> {
    match r {
        Ok(d) => Ok(d@),
        Err(e) => Err(e@),
    }
}

/// The protocol spoken on a new connection: HTTP/2 where TLS has settled
/// on `h2`, HTTP/1.1 everywhere else.
pub open spec fn protocol_for(dial: DialView, alpn: Option<Seq<u8>>) -> Version {
    if dial is Tls && alpn == Some(seq![104u8, 50u8]) {
        Version::Http2
    } else {
        Version::Http11
    }
}

fn address(host: &str, port: u16) -> (a: String)
    ensures
        a@ == socket_address(host@, port),
{
    let mut out: Vec<char> = Vec::new();
    push_text(&mut out, host);
    push_text(&mut out, ":");
    push_decimal(&mut out, port as u64);
    from_chars(&out)
}

/// The index of the first element that `alive` holds of, or the length of
/// the queue where it holds of none.
pub open spec fn first_live<C>(q: Seq<C>, alive: spec_fn(C) -> bool) -> int
    decreases q.len(),
{
    if q.len() == 0 {
        0
    } else if alive(q[0]) {
        0
    } else {
        1 + first_live(q.drop_first(), alive)
    }
}

/// The connection that a queue hands out: the first live one.
pub open spec fn handed_out<C>(q: Seq<C>, alive: spec_fn(C) -> bool) -> Option<C> {
    let i = first_live(q, alive);
    if i < q.len() {
        Some(q[i])
    } else {
        None
    }
}

/// What is left of a queue after it has handed out a connection: what stood
/// behind that connection. The dead connections before it are gone, and so
/// are all if none is live.
pub open spec fn left_over<C>(q: Seq<C>, alive: spec_fn(C) -> bool) -> Seq<C> {
    let i = first_live(q, alive);
    if i < q.len() {
        q.skip(i + 1)
    } else {
        Seq::<C>::empty()
    }
}

/// `live` answers as `alive` says.
pub open spec fn answers<C, F: Fn(&C) -> bool>(live: F, alive: spec_fn(C) -> bool) -> bool {
    forall|c: C, b: bool| #[trigger] live.ensures((&c,), b) ==> b == alive(c)
}

/// The first live element stands at `i`.
pub proof fn lemma_first_live_at<C>(q: Seq<C>, alive: spec_fn(C) -> bool, i: int)
    requires
        0 <= i <= q.len(),
        forall|j: int| 0 <= j < i ==> !alive(#[trigger] q[j]),
        i < q.len() ==> alive(q[i]),
    ensures
        first_live(q, alive) == i,
    decreases i,
{
    if i > 0 {
        let rest = q.drop_first();
        assert(!alive(q[0]));
        assert forall|j: int| 0 <= j < i - 1 implies !alive(#[trigger] rest[j]) by {
            assert(rest[j] == q[j + 1]);
        }
        if i < q.len() {
            assert(rest[i - 1] == q[i]);
        }
        lemma_first_live_at(rest, alive, i - 1);
    }
}

/// What a queue hands out is live, stood in the queue, and had only dead
/// connections before it; a queue that hands out nothing holds no live
/// connection.
pub proof fn lemma_handed_out_live<C>(q: Seq<C>, alive: spec_fn(C) -> bool)
    ensures
        0 <= first_live(q, alive) <= q.len(),
        forall|j: int| 0 <= j < first_live(q, alive) ==> !alive(#[trigger] q[j]),
        handed_out(q, alive) matches Some(c) ==> alive(c) && q.contains(c),
        handed_out(q, alive) is None ==> forall|j: int| 0 <= j < q.len() ==> !alive(#[trigger] q[j]),
    decreases q.len(),
{
    if q.len() > 0 && !alive(q[0]) {
        let rest = q.drop_first();
        lemma_handed_out_live(rest, alive);
        let i = first_live(q, alive);
        assert forall|j: int| 0 <= j < i implies !alive(#[trigger] q[j]) by {
            if j > 0 {
                assert(rest[j - 1] == q[j]);
            }
        }
        if i < q.len() {
            assert(rest[i - 1] == q[i]);
        }
    }
}

/// A connection that is put back behind dead ones only is the next to be
/// handed out, as long as it stays live, and the queue is empty after that.
pub proof fn lemma_reuse<C>(q: Seq<C>, conn: C, alive: spec_fn(C) -> bool)
    requires
        handed_out(q, alive) is None,
        alive(conn),
    ensures
        handed_out(q.push(conn), alive) == Some(conn),
        left_over(q.push(conn), alive) == Seq::<C>::empty(),
{
    lemma_handed_out_live(q, alive);
    let after = q.push(conn);
    assert forall|j: int| 0 <= j < q.len() implies !alive(#[trigger] after[j]) by {
        assert(after[j] == q[j]);
    }
    lemma_first_live_at(after, alive, q.len() as int);
    assert(after.skip(q.len() as int + 1) == Seq::<C>::empty());
}

/// The connections that wait for one upstream.
pub struct Waiting<C> {
    pub key: String,
    pub queue: VecDeque<C>,
}

/// The queue of the first entry for `key`, or an empty queue where no entry
/// has the key.
pub open spec fn queue_of<C>(entries: Seq<Waiting<C>>, key: Seq<char>) -> Seq<C>
    decreases entries.len(),
{
    if entries.len() == 0 {
        Seq::<C>::empty()
    } else if entries[0].key@ == key {
        entries[0].queue@
    } else {
        queue_of(entries.drop_first(), key)
    }
}

proof fn lemma_queue_at<C>(entries: Seq<Waiting<C>>, key: Seq<char>, i: int)
    requires
        0 <= i < entries.len(),
        entries[i].key@ == key,
        forall|j: int| 0 <= j < i ==> (#[trigger] entries[j]).key@ != key,
    ensures
        queue_of(entries, key) == entries[i].queue@,
    decreases i,
{
    if i > 0 {
        let rest = entries.drop_first();
        assert(entries[0].key@ != key);
        assert forall|j: int| 0 <= j < i - 1 implies (#[trigger] rest[j]).key@ != key by {
            assert(rest[j] == entries[j + 1]);
        }
        assert(rest[i - 1] == entries[i]);
        lemma_queue_at(rest, key, i - 1);
    }
}

proof fn lemma_queue_absent<C>(entries: Seq<Waiting<C>>, key: Seq<char>)
    requires
        forall|j: int| 0 <= j < entries.len() ==> (#[trigger] entries[j]).key@ != key,
    ensures
        queue_of(entries, key) == Seq::<C>::empty(),
    decreases entries.len(),
{
    if entries.len() > 0 {
        let rest = entries.drop_first();
        assert(entries[0].key@ != key);
        assert forall|j: int| 0 <= j < rest.len() implies (#[trigger] rest[j]).key@ != key by {
            assert(rest[j] == entries[j + 1]);
        }
        lemma_queue_absent(rest, key);
    }
}

/// Two lists of entries with the same keys, of which only the queues of one
/// key may differ, have the same queue for every other key.
proof fn lemma_queue_other<C>(a: Seq<Waiting<C>>, b: Seq<Waiting<C>>, key: Seq<char>, other: Seq<char>)
    requires
        other != key,
        a.len() <= b.len(),
        forall|j: int| 0 <= j < a.len() ==> (#[trigger] a[j]).key@ == b[j].key@,
        forall|j: int| 0 <= j < a.len() && a[j].key@ != key ==> (#[trigger] a[j]).queue@ == b[j].queue@,
        forall|j: int| a.len() <= j < b.len() ==> (#[trigger] b[j]).key@ == key,
    ensures
        queue_of(a, other) == queue_of(b, other),
    decreases b.len(),
{
    if a.len() == 0 {
        assert forall|j: int| 0 <= j < b.len() implies (#[trigger] b[j]).key@ != other by {}
        lemma_queue_absent(b, other);
    } else {
        assert(a[0].key@ == b[0].key@);
        if a[0].key@ == other {
            assert(a[0].queue@ == b[0].queue@);
        } else {
            let ra = a.drop_first();
            let rb = b.drop_first();
            assert forall|j: int| 0 <= j < ra.len() implies (#[trigger] ra[j]).key@ == rb[j].key@ by {
                assert(ra[j] == a[j + 1]);
                assert(rb[j] == b[j + 1]);
            }
            assert forall|j: int| 0 <= j < ra.len() && ra[j].key@ != key implies (#[trigger] ra[j]).queue@
                == rb[j].queue@ by {
                assert(ra[j] == a[j + 1]);
                assert(rb[j] == b[j + 1]);
            }
            assert forall|j: int| ra.len() <= j < rb.len() implies (#[trigger] rb[j]).key@ == key by {
                assert(rb[j] == b[j + 1]);
            }
            lemma_queue_other(ra, rb, key, other);
        }
    }
}

/// No key stands in two entries.
pub open spec fn distinct<C>(entries: Seq<Waiting<C>>) -> bool {
    forall|i: int, j: int|
        0 <= i < j < entries.len() ==> (#[trigger] entries[i]).key@ != (#[trigger] entries[j]).key@
}

/// Where only the queue for one key has changed, or an entry for that key
/// has come behind the others because there was none, the queue for every
/// other key is what it was, and still no key stands in two entries.
proof fn lemma_one_queue_changed<C>(before: Seq<Waiting<C>>, after: Seq<Waiting<C>>, key: Seq<char>)
    requires
        before.len() <= after.len() <= before.len() + 1,
        forall|j: int| 0 <= j < before.len() ==> (#[trigger] before[j]).key@ == after[j].key@,
        forall|j: int|
            0 <= j < before.len() && before[j].key@ != key ==> (#[trigger] before[j]).queue@
                == after[j].queue@,
        after.len() > before.len() ==> after[before.len() as int].key@ == key && forall|j: int|
            0 <= j < before.len() ==> (#[trigger] before[j]).key@ != key,
    ensures
        forall|other: Seq<char>|
            other != key ==> #[trigger] queue_of(after, other) == queue_of(before, other),
        distinct(before) ==> distinct(after),
{
    assert forall|other: Seq<char>| other != key implies #[trigger] queue_of(after, other)
        == queue_of(before, other) by {
        lemma_queue_other(before, after, key, other);
    }
    if distinct(before) {
        assert forall|i: int, j: int| 0 <= i < j < after.len() implies (#[trigger] after[i]).key@ != (
        #[trigger] after[j]).key@ by {
            if j < before.len() {
                assert(before[i].key@ != before[j].key@);
            } else {
                assert(before[i].key@ != key);
            }
        }
    }
}

/// Connections that wait to be used again, in a queue for each upstream.
pub struct Pool<C> {
    pub entries: Vec<Waiting<C>>,
}

impl<C> Pool<C> {
    /// The connections that wait for the upstream `key`, the one that has
    /// waited longest first.
    pub open spec fn queue(&self, key: Seq<char>) -> Seq<C> {
        queue_of(self.entries@, key)
    }

    /// Every upstream has one entry at most.
    pub open spec fn wf(&self) -> bool {
        distinct(self.entries@)
    }

    /// A pool in which nothing waits.
    pub fn new() -> (p: Pool<C>)
        ensures
            p.wf(),
            forall|key: Seq<char>| #[trigger] p.queue(key) == Seq::<C>::empty(),
    {
        Pool { entries: Vec::new() }
    }

    /// The place of the first entry for `key`.
    fn find(&self, key: &str) -> (r: Option<usize>)
        ensures
            match r {
                Some(i) => i < self.entries.len() && self.entries@[i as int].key@ == key@
                    && forall|j: int| 0 <= j < i ==> (#[trigger] self.entries@[j]).key@ != key@,
                None => forall|j: int|
                    0 <= j < self.entries.len() ==> (#[trigger] self.entries@[j]).key@ != key@,
            },
    {
        let mut i: usize = 0;
        while i < self.entries.len()
            invariant
                i <= self.entries.len(),
                forall|j: int| 0 <= j < i ==> (#[trigger] self.entries@[j]).key@ != key@,
            decreases self.entries.len() - i,
        {
            if same(self.entries[i].key.as_str(), key) {
                return Some(i);
            }
            i += 1;
        }
        None
    }

    /// Puts `conn` at the end of the queue for `key`.
    pub fn release(&mut self, key: &str, conn: C)
        ensures
            final(self).queue(key@) == old(self).queue(key@).push(conn),
            forall|other: Seq<char>|
                other != key@ ==> #[trigger] final(self).queue(other) == old(self).queue(other),
            old(self).wf() ==> final(self).wf(),
    {
        let ghost before = self.entries@;
        match self.find(key) {
            Some(i) => {
                let mut entry = self.entries.remove(i);
                entry.queue.push_back(conn);
                self.entries.insert(i, entry);
                proof {
                    lemma_queue_at(before, key@, i as int);
                    lemma_queue_at(self.entries@, key@, i as int);
                    lemma_one_queue_changed(before, self.entries@, key@);
                }
            },
            None => {
                let mut queue: VecDeque<C> = VecDeque::new();
                queue.push_back(conn);
                self.entries.push(Waiting { key: String::from_str(key), queue });
                proof {
                    lemma_queue_absent(before, key@);
                    lemma_queue_at(self.entries@, key@, before.len() as int);
                    assert(Seq::<C>::empty().push(conn) == self.entries@[before.len() as int].queue@);
                    lemma_one_queue_changed(before, self.entries@, key@);
                }
            },
        }
    }

    /// Takes the first live connection out of the queue for `key`. The dead
    /// ones that stand before it are thrown away, and all of them where none
    /// is live. `live` is asked once for each connection, front to back,
    /// until it says yes.
    pub fn checkout<F: Fn(&C) -> bool>(&mut self, key: &str, live: F) -> (r: Option<C>)
        requires
            forall|c: C| #[trigger] live.requires((&c,)),
        ensures
            forall|alive: spec_fn(C) -> bool| #[trigger]
                answers(live, alive) ==> r == handed_out(old(self).queue(key@), alive)
                    && final(self).queue(key@) == left_over(old(self).queue(key@), alive),
            forall|other: Seq<char>|
                other != key@ ==> #[trigger] final(self).queue(other) == old(self).queue(other),
            old(self).wf() ==> final(self).wf(),
    {
        let ghost before = self.entries@;
        let ghost q = queue_of(before, key@);
        match self.find(key) {
            Some(i) => {
                let mut entry = self.entries.remove(i);
                proof {
                    lemma_queue_at(before, key@, i as int);
                }
                let mut found: Option<C> = None;
                let ghost mut n: int = 0;
                while entry.queue.len() > 0 && found.is_none()
                    invariant
                        0 <= n <= q.len(),
                        forall|c: C| #[trigger] live.requires((&c,)),
                        forall|j: int|
                            0 <= j < n - (if found is Some { 1int } else { 0int }) ==> live.ensures(
                                (&#[trigger] q[j],),
                                false,
                            ),
                        match found {
                            Some(c) => n >= 1 && c == q[n - 1] && live.ensures((&c,), true),
                            None => true,
                        },
                        entry.queue@ == q.skip(n),
                        entry.key@ == key@,
                    decreases entry.queue.len() + (if found is None { 1int } else { 0int }),
                {
                    let c = entry.queue.pop_front().unwrap();
                    assert(c == q[n]);
                    assert(q.skip(n).skip(1) == q.skip(n + 1));
                    let ok = live(&c);
                    proof {
                        n = n + 1;
                    }
                    if ok {
                        found = Some(c);
                    }
                }
                self.entries.insert(i, entry);
                proof {
                    lemma_queue_at(self.entries@, key@, i as int);
                    lemma_one_queue_changed(before, self.entries@, key@);
                    assert forall|alive: spec_fn(C) -> bool| #[trigger]
                        answers(live, alive) implies found == handed_out(q, alive) && queue_of(
                        self.entries@,
                        key@,
                    ) == left_over(q, alive) by {
                        let at = n - (if found is Some { 1int } else { 0int });
                        assert forall|j: int| 0 <= j < at implies !alive(#[trigger] q[j]) by {
                            assert(live.ensures((&q[j],), false));
                        }
                        lemma_first_live_at(q, alive, at);
                        if found is None {
                            assert(q.skip(n).len() == 0);
                        }
                    }
                }
                found
            },
            None => {
                proof {
                    lemma_queue_absent(before, key@);
                    assert forall|alive: spec_fn(C) -> bool|
                        handed_out(q, alive) is None && left_over(q, alive) == Seq::<C>::empty() by {}
                }
                None
            },
        }
    }
}

/// The key under which the connections to an upstream wait: its scheme and
/// its authority. Path and query do not count, so all targets at one
/// upstream share their connections.
pub open spec fn pool_key(uri: UriView) -> Seq<char> {
    let scheme = match uri.scheme {
        Some(s) => s + "://"@,
        None => Seq::<char>::empty(),
    };
    let authority = match uri.authority {
        Some(a) => a,
        None => Seq::<char>::empty(),
    };
    scheme + authority
}

/// Targets with the same scheme and the same authority have the same key,
/// whatever their paths and queries are.
pub proof fn lemma_same_upstream(a: UriView, b: UriView)
    requires
        a.scheme == b.scheme,
        a.authority == b.authority,
    ensures
        pool_key(a) == pool_key(b),
{
}

/// A connection on loan from the pool. It goes back under the key of the
/// upstream that it was taken out for.
pub struct Reservation<S> {
    pub conn: Connection<S>,
    /// The key of the upstream: its scheme and its authority.
    pub uri: String,
}

/// The client through which upstreams are reached.
pub struct Client<S> {
    pub pool: Pool<Connection<S>>,
}

impl<S> Client<S> {
    /// A client with an empty pool.
    pub fn new() -> (c: Client<S>)
        ensures
            c.pool.wf(),
            forall|key: Seq<char>| #[trigger] c.pool.queue(key) == Seq::<Connection<S>>::empty(),
    {
        Client { pool: Pool::new() }
    }

    /// How the upstream with the given parts is reached.
    pub fn dial_with(scheme: Option<&str>, path: &str, host: Option<String>, port: Option<u16>) -> (r:
        Result<Dial, HttpError>)
        ensures
            dialled(r) == dial_for(
                match scheme {
                    Some(s) => Some(s@),
                    None => None,
                },
                path@,
                opt_text(host),
                port,
            ),
    {
        let scheme = match scheme {
            Some(s) => s,
            None => {
                return Err(HttpError::message("No scheme specified"));
            },
        };
        if same(scheme, "unix") {
            Ok(Dial::Unix { path: String::from_str(path) })
        } else if same(scheme, "http") {
            match host {
                None => Err(HttpError::message("No host specified")),
                Some(h) => {
                    let port = match port {
                        Some(p) => p,
                        None => 80,
                    };
                    Ok(Dial::Tcp { address: address(h.as_str(), port) })
                },
            }
        } else if same(scheme, "https") {
            match host {
                None => Err(HttpError::message("No host specified")),
                Some(h) => {
                    let port = match port {
                        Some(p) => p,
                        None => 443,
                    };
                    Ok(Dial::Tls { address: address(h.as_str(), port), host: h })
                },
            }
        } else {
            Err(HttpError::message("Invalid scheme"))
        }
    }

    /// How the upstream at `uri` is reached.
    pub fn connect(uri: &Uri) -> (r: Result<Dial, HttpError>)
        ensures
            dialled(r) == dial_for(uri@.scheme, uri@.path, uri@.host(), uri@.port()),
    {
        let host = uri.host();
        let port = uri.port();
        match &uri.scheme {
            Some(s) => Client::<S>::dial_with(Some(s.as_str()), uri.path.as_str(), host, port),
            None => Client::<S>::dial_with(None, uri.path.as_str(), host, port),
        }
    }

    /// The protocol spoken on a connection made as `dial` says, on which
    /// TLS has settled on the protocol `alpn`.
    pub fn protocol(dial: &Dial, alpn: Option<&Vec<u8>>) -> (v: Version)
        ensures
            v == protocol_for(
                dial@,
                match alpn {
                    Some(a) => Some(a@),
                    None => None,
                },
            ),
    {
        match (dial, alpn) {
            (Dial::Tls { .. }, Some(a)) => {
                if a.len() == 2 && a[0] == 104 && a[1] == 50 {
                    assert(a@ == seq![104u8, 50u8]);
                    Version::Http2
                } else {
                    assert(a@ != seq![104u8, 50u8]) by {
                        if a@ == seq![104u8, 50u8] {
                            assert(a@.len() == 2 && a@[0] == 104 && a@[1] == 50);
                        }
                    }
                    Version::Http11
                }
            },
            _ => Version::Http11,
        }
    }

    /// The key under which the connections to the upstream at `uri` wait.
    pub fn key(uri: &Uri) -> (k: String)
        ensures
            k@ == pool_key(uri@),
    {
        let mut out: Vec<char> = Vec::new();
        match &uri.scheme {
            Some(scheme) => {
                push_text(&mut out, scheme.as_str());
                push_text(&mut out, "://");
            },
            None => {},
        }
        match &uri.authority {
            Some(a) => {
                push_text(&mut out, a.as_str());
            },
            None => {},
        }
        assert(out@ == pool_key(uri@));
        from_chars(&out)
    }

    /// A connection that waits in the pool for the upstream at `uri`, on
    /// loan. Where none is live, there is nothing to lend, and the caller
    /// connects anew.
    pub fn get_connection<F: Fn(&Connection<S>) -> bool>(&mut self, uri: &Uri, live: F) -> (r:
        Option<Reservation<S>>)
        requires
            forall|c: Connection<S>| #[trigger] live.requires((&c,)),
        ensures
            forall|alive: spec_fn(Connection<S>) -> bool| #[trigger]
                answers(live, alive) ==> {
                    &&& match handed_out(old(self).pool.queue(pool_key(uri@)), alive) {
                        Some(c) => r matches Some(res) && res.conn == c && res.uri@ == pool_key(
                            uri@,
                        ),
                        None => r is None,
                    }
                    &&& final(self).pool.queue(pool_key(uri@)) == left_over(
                        old(self).pool.queue(pool_key(uri@)),
                        alive,
                    )
                },
            forall|other: Seq<char>|
                other != pool_key(uri@) ==> #[trigger] final(self).pool.queue(other) == old(
                    self,
                ).pool.queue(other),
            old(self).pool.wf() ==> final(self).pool.wf(),
    {
        let key = Client::<S>::key(uri);
        match self.pool.checkout(key.as_str(), live) {
            Some(conn) => Some(Reservation { conn, uri: key }),
            None => None,
        }
    }

    /// A loan of a connection that was made anew for the upstream at `uri`.
    pub fn reserve(uri: &Uri, conn: Connection<S>) -> (r: Reservation<S>)
        ensures
            r.conn == conn,
            r.uri@ == pool_key(uri@),
    {
        Reservation { conn, uri: Client::<S>::key(uri) }
    }

    /// Takes a connection back at the end of its loan. It waits behind all
    /// that wait for the same upstream already.
    pub fn release(&mut self, loan: Reservation<S>)
        ensures
            final(self).pool.queue(loan.uri@) == old(self).pool.queue(loan.uri@).push(loan.conn),
            forall|other: Seq<char>|
                other != loan.uri@ ==> #[trigger] final(self).pool.queue(other) == old(
                    self,
                ).pool.queue(other),
            old(self).pool.wf() ==> final(self).pool.wf(),
    {
        let Reservation { conn, uri } = loan;
        self.pool.release(uri.as_str(), conn);
    }
}

} // verus!
