//! Server side: the handle allocator, the map of accepted connections and
//! the queue of received requests.
//!
//! The listener itself belongs to the driver. The server decides which
//! handle an accepted socket gets, which connections are live, and in what
//! order requests come out.
use std::collections::HashMap;
use std::collections::VecDeque;
use vstd::prelude::*;
use vstd::set_lib::lemma_len_subset;

use crate::connection::{Connection, ConnectionState, ConnectionView, NEWLINE};
use crate::protocol::{error_response_text, is_json_text, reject_malformed, reply_for, request_object_id};

verus! {

broadcast use vstd::std_specs::hash::group_hash_axioms;

/// Identifies the server-side connection that a request came from. It
/// carries only that connection's handle and is valid until the connection
/// closes; a reply through a stale one is not delivered.
#[derive(Debug, PartialEq, Eq, Structural, Hash, PartialOrd, Ord)]
pub struct From {
    token: usize,
}

impl From {
    /// The handle of the connection that sent the request.
    pub fn token(&self) -> (r: usize)
        ensures
            r == self.handle(),
    {
        self.token
    }

    /// The handle, in specifications.
    pub closed spec fn handle(&self) -> usize {
        self.token
    }
}

/// The sender for the connection holding `token`.
pub closed spec fn sender(token: usize) -> From {
    From { token }
}

/// The handle range was empty: `token_min` must be below `token_max`,
/// since `token_min` itself belongs to the listener.
#[derive(Debug, Clone, Copy, PartialEq, Eq, Structural)]
pub struct InvalidRange;

/// What the driver does after a line was handed to the server.
#[derive(Debug, Clone, Copy, PartialEq, Eq, Structural)]
pub enum LineStep {
    /// The request was queued; go on reading.
    Continue,
    /// An error response was queued: flush it, best effort, then close.
    FlushThenClose,
    /// Close the connection.
    Close,
}

/// Mathematical model of a server.
pub ghost struct ServerView<REQ> {
    /// The listener's handle.
    pub min: usize,
    /// The largest handle a connection may get.
    pub max: usize,
    /// The first handle the allocator tries next.
    pub cursor: usize,
    /// The live connections by handle.
    pub live: Map<usize, ConnectionView>,
    /// Received requests, oldest first.
    pub requests: Seq<(From, REQ)>,
}

/// Number of handles that connections can hold: the listener keeps `min`.
pub open spec fn capacity<REQ>(v: ServerView<REQ>) -> int {
    v.max - v.min
}

/// The handles that connections can hold, `min < h <= max`.
pub open spec fn handle_range(min: usize, max: usize) -> Set<usize> {
    Set::new(|h: usize| min < h <= max)
}

/// Every live connection holds a distinct handle in `(min, max]`, is not
/// closed, and there are at most `max - min` of them.
pub open spec fn handles_valid<REQ>(v: ServerView<REQ>) -> bool {
    &&& v.min < v.max
    &&& v.min < v.cursor <= v.max
    &&& v.live.dom().finite()
    &&& v.live.len() <= capacity(v)
    &&& forall|h: usize| #[trigger]
        v.live.contains_key(h) ==> {
            &&& v.min < h <= v.max
            &&& v.live[h].token == h
            &&& v.live[h].state != ConnectionState::Closed
        }
    &&& forall|a: usize, b: usize|
        #![trigger v.live[a], v.live[b]]
        v.live.contains_key(a) && v.live.contains_key(b) && a != b ==> v.live[a].token
            != v.live[b].token
}

/// The cursor's next position: it walks `(min, max]` and wraps around.
pub open spec fn cursor_after(h: usize, min: usize, max: usize) -> usize {
    if h >= max {
        (min + 1) as usize
    } else {
        (h + 1) as usize
    }
}

/// How many steps the cursor takes from `cursor` to reach `h`.
pub open spec fn cyclic_rank(h: usize, cursor: usize, min: usize, max: usize) -> int {
    if h >= cursor {
        h - cursor
    } else {
        h - cursor + (max - min)
    }
}

/// `h` is the handle the allocator hands out next: the first free one that
/// the cursor reaches.
pub open spec fn is_next_handle<REQ>(v: ServerView<REQ>, h: usize) -> bool {
    &&& v.min < h <= v.max
    &&& !v.live.contains_key(h)
    &&& forall|g: usize|
        v.min < g <= v.max && #[trigger] cyclic_rank(g, v.cursor, v.min, v.max) < cyclic_rank(
            h,
            v.cursor,
            v.min,
            v.max,
        ) ==> v.live.contains_key(g)
}

/// The model of a freshly accepted connection.
pub open spec fn accepted_view(h: usize) -> ConnectionView {
    ConnectionView {
        token: h,
        state: ConnectionState::Connected,
        outbound: Seq::empty(),
        inbound: Seq::empty(),
        write_interest: false,
    }
}

/// The range `(min, max]` holds `max - min` handles.
pub proof fn lemma_handle_range_len(min: usize, max: usize)
    requires
        min <= max,
    ensures
        handle_range(min, max).finite(),
        handle_range(min, max).len() == max - min,
    decreases max - min,
{
    if max == min {
        assert(handle_range(min, max) =~= Set::empty());
    } else {
        let below = (max - 1) as usize;
        lemma_handle_range_len(min, below);
        assert(handle_range(min, max) =~= handle_range(min, below).insert(max));
    }
}

/// A server whose live connections leave one handle of its range free
/// hands out exactly that handle: a closed connection's handle is reused.
pub proof fn lemma_recycled_handle<REQ>(v: ServerView<REQ>, freed: usize, h: usize)
    requires
        handles_valid(v),
        v.live.len() == capacity(v) - 1,
        v.min < freed <= v.max,
        !v.live.contains_key(freed),
        is_next_handle(v, h),
    ensures
        h == freed,
{
    if h != freed {
        let rest = handle_range(v.min, v.max).remove(h).remove(freed);
        lemma_handle_range_len(v.min, v.max);
        assert(v.live.dom().subset_of(rest));
        lemma_len_subset(v.live.dom(), rest);
    }
}

/// A server whose live connections leave a handle of its range free has
/// fewer than `max - min` of them; one with `max - min` has none free.
pub proof fn lemma_full_when_saturated<REQ>(v: ServerView<REQ>)
    requires
        handles_valid(v),
        v.live.len() == capacity(v),
    ensures
        forall|h: usize| v.min < h <= v.max ==> #[trigger] v.live.contains_key(h),
{
    assert forall|h: usize| v.min < h <= v.max implies #[trigger] v.live.contains_key(h) by {
        if !v.live.contains_key(h) {
            let rest = handle_range(v.min, v.max).remove(h);
            lemma_handle_range_len(v.min, v.max);
            assert(v.live.dom().subset_of(rest));
            lemma_len_subset(v.live.dom(), rest);
        }
    }
}

/// The bookkeeping of a server: handle range, allocator cursor, live
/// connections and received requests.
#[derive(Debug)]
pub struct RpcServer<S, REQ> {
    token_min: usize,
    token_max: usize,
    next_token: usize,
    connections: HashMap<usize, Connection<S>>,
    requests: VecDeque<(From, REQ)>,
}

impl<S, REQ> View for RpcServer<S, REQ> {
    type V = ServerView<REQ>;

    closed spec fn view(&self) -> ServerView<REQ> {
        ServerView {
            min: self.token_min,
            max: self.token_max,
            cursor: self.next_token,
            live: self.connections@.map_values(|c: Connection<S>| c@),
            requests: self.requests@,
        }
    }
}

impl<S, REQ> RpcServer<S, REQ> {
    /// The live map has the handles of the connection map.
    proof fn lemma_live_dom(&self)
        ensures
            self@.live.dom() == self.connections@.dom(),
            self@.live.len() == self.connections@.len(),
    {
        assert(self@.live.dom() =~= self.connections@.dom());
    }

    /// A server for the handle range `[token_min, token_max]`: the listener
    /// is registered under `token_min`, connections get the others. An
    /// empty range is refused.
    pub fn new(token_min: usize, token_max: usize) -> (r: Result<Self, InvalidRange>)
        ensures
            token_min >= token_max <==> r is Err,
            r matches Ok(s) ==> handles_valid(s@),
            r matches Ok(s) ==> s@ == (ServerView::<REQ> {
                min: token_min,
                max: token_max,
                cursor: (token_min + 1) as usize,
                live: Map::empty(),
                requests: Seq::empty(),
            }),
    {
        if token_min >= token_max {
            return Err(InvalidRange);
        }
        let s = RpcServer {
            token_min,
            token_max,
            next_token: token_min + 1,
            connections: HashMap::new(),
            requests: VecDeque::new(),
        };
        assert(s@.live =~= Map::empty());
        Ok(s)
    }

    /// The listener's handle.
    pub fn token_min(&self) -> (r: usize)
        ensures
            r == self@.min,
    {
        self.token_min
    }

    /// The largest handle a connection may get.
    pub fn token_max(&self) -> (r: usize)
        ensures
            r == self@.max,
    {
        self.token_max
    }

    /// Whether an event with this handle is for the listener.
    pub fn is_listener(&self, token: usize) -> (r: bool)
        ensures
            r == (token == self@.min),
    {
        token == self.token_min
    }

    /// Number of live connections; never more than `max - min`.
    pub fn connection_count(&self) -> (r: usize)
        requires
            handles_valid(self@),
        ensures
            r == self@.live.len(),
            r <= capacity(self@),
    {
        proof {
            self.lemma_live_dom();
        }
        self.connections.len()
    }

    /// Whether a live connection holds this handle.
    pub fn contains(&self, token: usize) -> (r: bool)
        ensures
            r == self@.live.contains_key(token),
    {
        self.connections.contains_key(&token)
    }

    /// The live connection holding this handle.
    pub fn connection(&self, token: usize) -> (r: Option<&Connection<S>>)
        ensures
            match r {
                Some(c) => self@.live.contains_key(token) && c@ == self@.live[token],
                None => !self@.live.contains_key(token),
            },
    {
        self.connections.get(&token)
    }

    /// The live connections by handle.
    pub fn connections(&self) -> (r: &HashMap<usize, Connection<S>>)
        ensures
            r@.map_values(|c: Connection<S>| c@) == self@.live,
    {
        &self.connections
    }

    /// Picks the handle for the next accepted connection and moves the
    /// cursor past it. None when every handle is taken.
    fn next_token(&mut self) -> (r: Option<usize>)
        requires
            handles_valid(old(self)@),
        ensures
            handles_valid(final(self)@),
            old(self)@.live.len() == capacity(old(self)@) ==> {
                &&& r is None
                &&& final(self)@ == old(self)@
            },
            old(self)@.live.len() < capacity(old(self)@) ==> match r {
                Some(h) => {
                    &&& is_next_handle(old(self)@, h)
                    &&& final(self)@ == (ServerView {
                        cursor: cursor_after(h, old(self)@.min, old(self)@.max),
                        ..old(self)@
                    })
                },
                None => false,
            },
    {
        proof {
            self.lemma_live_dom();
        }
        if self.connections.len() == self.token_max - self.token_min {
            return None;
        }
        let ghost v = self@;
        let min = self.token_min;
        let max = self.token_max;
        let cursor = self.next_token;
        let mut h: usize = cursor;
        loop
            invariant
                v == self@,
                v == old(self)@,
                handles_valid(v),
                min == v.min,
                max == v.max,
                cursor == v.cursor,
                v.live.len() < capacity(v),
                cursor <= h <= max,
                forall|g: usize| cursor <= g < h ==> #[trigger] v.live.contains_key(g),
            ensures
                forall|g: usize| cursor <= g <= max ==> #[trigger] v.live.contains_key(g),
            decreases max - h,
        {
            if !self.connections.contains_key(&h) {
                assert forall|g: usize|
                    min < g <= max && #[trigger] cyclic_rank(g, cursor, min, max) < cyclic_rank(
                        h,
                        cursor,
                        min,
                        max,
                    ) implies v.live.contains_key(g) by {
                    if g >= cursor {
                        assert(g < h);
                    }
                }
                self.next_token = if h == max {
                    min + 1
                } else {
                    h + 1
                };
                return Some(h);
            }
            if h == max {
                break;
            }
            h = h + 1;
        }
        let mut h: usize = min + 1;
        loop
            invariant
                v == self@,
                v == old(self)@,
                handles_valid(v),
                v.live.len() < capacity(v),
                min == v.min,
                max == v.max,
                cursor == v.cursor,
                min < h <= cursor,
                forall|g: usize| cursor <= g <= max ==> #[trigger] v.live.contains_key(g),
                forall|g: usize| min < g < h ==> #[trigger] v.live.contains_key(g),
            decreases cursor - h,
        {
            if h == cursor {
                proof {
                    let range = handle_range(min, max);
                    lemma_handle_range_len(min, max);
                    assert(range.subset_of(v.live.dom()));
                    lemma_len_subset(range, v.live.dom());
                }
                return None;
            }
            if !self.connections.contains_key(&h) {
                assert forall|g: usize|
                    min < g <= max && #[trigger] cyclic_rank(g, cursor, min, max) < cyclic_rank(
                        h,
                        cursor,
                        min,
                        max,
                    ) implies v.live.contains_key(g) by {
                    if g < cursor {
                        assert(g < h);
                    }
                }
                self.next_token = h + 1;
                return Some(h);
            }
            h = h + 1;
        }
    }

    /// Takes an accepted socket. It gets the next free handle as a
    /// connected connection; the driver then registers the socket for read
    /// readiness under that handle. When every handle is taken the socket
    /// is dropped, which closes it, and nothing else changes.
    pub fn accept(&mut self, stream: S) -> (r: Option<usize>)
        requires
            handles_valid(old(self)@),
        ensures
            handles_valid(final(self)@),
            old(self)@.live.len() == capacity(old(self)@) ==> {
                &&& r is None
                &&& final(self)@ == old(self)@
            },
            old(self)@.live.len() < capacity(old(self)@) ==> match r {
                Some(h) => {
                    &&& is_next_handle(old(self)@, h)
                    &&& final(self)@ == (ServerView {
                        cursor: cursor_after(h, old(self)@.min, old(self)@.max),
                        live: old(self)@.live.insert(h, accepted_view(h)),
                        ..old(self)@
                    })
                },
                None => false,
            },
    {
        let token = match self.next_token() {
            Some(t) => t,
            None => return None,
        };
        let c = Connection::new(token, stream, ConnectionState::Connected);
        self.connections.insert(token, c);
        assert(self@.live =~= old(self)@.live.insert(token, accepted_view(token)));
        Some(token)
    }

    /// Takes the live connection holding this handle out of the server, for
    /// the driver to work on its socket; `restore_connection` puts it back.
    pub fn take_connection(&mut self, token: usize) -> (r: Option<Connection<S>>)
        requires
            handles_valid(old(self)@),
        ensures
            handles_valid(final(self)@),
            match r {
                Some(c) => {
                    &&& old(self)@.live.contains_key(token)
                    &&& c@ == old(self)@.live[token]
                    &&& final(self)@ == (ServerView {
                        live: old(self)@.live.remove(token),
                        ..old(self)@
                    })
                },
                None => {
                    &&& !old(self)@.live.contains_key(token)
                    &&& final(self)@ == old(self)@
                },
            },
    {
        proof {
            self.lemma_live_dom();
        }
        let r = self.connections.remove(&token);
        proof {
            if r is Some {
                let c = r->Some_0;
                assert(old(self).connections@.contains_key(token));
                assert(old(self).connections@[token] == c);
                assert(old(self)@.live[token] == old(self).connections@[token]@);
            }
            assert(self@.live =~= old(self)@.live.remove(token));
            if r is None {
                assert(self@.live =~= old(self)@.live);
            }
            lemma_len_subset(self@.live.dom(), old(self)@.live.dom());
        }
        r
    }

    /// Puts a connection back. It is kept only while it is open, its
    /// handle is in range and free, and there is room; otherwise it is
    /// dropped, and with it its socket.
    pub fn restore_connection(&mut self, conn: Connection<S>) -> (kept: bool)
        requires
            handles_valid(old(self)@),
        ensures
            handles_valid(final(self)@),
            kept == {
                &&& conn@.state != ConnectionState::Closed
                &&& old(self)@.min < conn@.token <= old(self)@.max
                &&& !old(self)@.live.contains_key(conn@.token)
                &&& old(self)@.live.len() < capacity(old(self)@)
            },
            kept ==> final(self)@ == (ServerView {
                live: old(self)@.live.insert(conn@.token, conn@),
                ..old(self)@
            }),
            !kept ==> final(self)@ == old(self)@,
    {
        proof {
            self.lemma_live_dom();
        }
        let token = conn.token();
        if conn.state() == ConnectionState::Closed || token <= self.token_min || token
            > self.token_max || self.connections.contains_key(&token) || self.connections.len()
            >= self.token_max - self.token_min {
            return false;
        }
        let ghost cv = conn@;
        self.connections.insert(token, conn);
        assert(self@.live =~= old(self)@.live.insert(token, cv));
        true
    }

    /// Queues a request received on the connection holding `token`.
    pub fn push_request(&mut self, token: usize, request: REQ)
        requires
            handles_valid(old(self)@),
        ensures
            handles_valid(final(self)@),
            final(self)@ == (ServerView {
                requests: old(self)@.requests.push((sender(token), request)),
                ..old(self)@
            }),
            sender(token).handle() == token,
    {
        self.requests.push_back((From { token }, request));
    }

    /// Takes the oldest received request with its sender.
    pub fn try_recv(&mut self) -> (r: Option<(From, REQ)>)
        requires
            handles_valid(old(self)@),
        ensures
            handles_valid(final(self)@),
            match r {
                Some(item) => {
                    &&& old(self)@.requests.len() > 0
                    &&& item == old(self)@.requests[0]
                    &&& final(self)@ == (ServerView {
                        requests: old(self)@.requests.drop_first(),
                        ..old(self)@
                    })
                },
                None => {
                    &&& old(self)@.requests.len() == 0
                    &&& final(self)@ == old(self)@
                },
            },
    {
        let r = self.requests.pop_front();
        assert(self@.requests =~= old(self)@.requests.drop_first() || r is None);
        r
    }

    /// Takes one line read on `conn`, with what the request type's decoder
    /// made of it. A decoded request is queued with the connection as its
    /// sender. A line that did not decode gets the error response that
    /// `reject_malformed` queues, and the connection is to close: protocol
    /// faults end the offending connection only.
    pub fn on_line(
        &mut self,
        conn: &mut Connection<S>,
        line: &[u8],
        decoded: Result<REQ, String>,
    ) -> (step: LineStep)
        requires
            handles_valid(old(self)@),
        ensures
            handles_valid(final(self)@),
            match decoded {
                Ok(request) => {
                    &&& step == LineStep::Continue
                    &&& final(conn)@ == old(conn)@
                    &&& final(self)@ == (ServerView {
                        requests: old(self)@.requests.push((sender(old(conn)@.token), request)),
                        ..old(self)@
                    })
                    &&& sender(old(conn)@.token).handle() == old(conn)@.token
                },
                Err(detail) => {
                    let reply = reply_for(request_object_id(line@), is_json_text(line@));
                    let text = error_response_text(reply.fault, detail@, reply.id);
                    &&& final(self)@ == old(self)@
                    &&& if old(conn)@.state != ConnectionState::Closed && text is Some
                        && old(conn)@.outbound.len() + text->Some_0.len() < usize::MAX {
                        &&& final(conn)@ == (ConnectionView {
                            outbound: old(conn)@.outbound + text->Some_0.push(NEWLINE),
                            ..old(conn)@
                        })
                        &&& step == if old(conn)@.state == ConnectionState::Connected {
                            LineStep::FlushThenClose
                        } else {
                            LineStep::Close
                        }
                    } else {
                        &&& final(conn)@ == old(conn)@
                        &&& step == LineStep::Close
                    }
                },
            },
    {
        match decoded {
            Ok(request) => {
                self.push_request(conn.token(), request);
                LineStep::Continue
            },
            Err(detail) => {
                if reject_malformed(conn, line, detail.as_str()) {
                    LineStep::FlushThenClose
                } else {
                    LineStep::Close
                }
            },
        }
    }
}

} // verus!
