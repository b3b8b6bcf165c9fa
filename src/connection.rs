//! One peer socket: connect completion, line framing, buffered writes and
//! readiness-interest toggling, teardown.
//!
//! A `Connection` owns its socket but never performs I/O on it. Its driver
//! asks it what to do (`begin_flush`, `on_write`, `complete_connect`), does
//! that on the socket, and reports the outcome.
use vstd::prelude::*;

verus! {

/// Line terminator of the wire framing: one JSON value per line.
pub const NEWLINE: u8 = 10;

/// Lifecycle of a connection. `Closed` is terminal.
#[derive(Debug, Clone, Copy, PartialEq, Eq, Structural, PartialOrd, Ord, Hash)]
pub enum ConnectionState {
    Connecting,
    Connected,
    Closed,
}

/// Readiness interests that a socket is registered for.
#[derive(Debug, Clone, Copy, PartialEq, Eq, Structural)]
pub enum Interests {
    Readable,
    ReadableWritable,
}

/// What one non-blocking write of the queued bytes reported.
#[derive(Debug, Clone, Copy, PartialEq, Eq, Structural)]
pub enum WriteOutcome {
    /// This many bytes from the front of the queue went out.
    Written(usize),
    /// The socket cannot take more bytes now.
    WouldBlock,
    /// Any other I/O error.
    Failed,
}

/// What one non-blocking read from the socket reported.
#[derive(Debug, Clone, Copy, PartialEq, Eq, Structural)]
pub enum ReadOutcome {
    /// This many bytes arrived, at the front of the read chunk; zero means
    /// the peer closed its side.
    Read(usize),
    /// The socket has no bytes now.
    WouldBlock,
    /// Any other I/O error.
    Failed,
}

/// What the driver does next while reading.
#[derive(Debug, Clone, Copy, PartialEq, Eq, Structural)]
pub enum ReadStep {
    /// Take the complete lines, then read again.
    Continue,
    /// Stop reading until the reactor reports read readiness again.
    Pause,
    /// The connection failed and is now closed: deregister and shut down
    /// the socket.
    Release,
}

/// What the driver does next while flushing.
#[derive(Debug, Clone, Copy, PartialEq, Eq, Structural)]
pub enum FlushStep {
    /// Write `queued_bytes()` to the socket and report it with `on_write`.
    Write,
    /// Re-register the socket with these interests; the flush is over.
    Reregister(Interests),
    /// The flush is over; nothing to re-register.
    Done,
    /// The connection failed and is now closed: deregister and shut down
    /// the socket, and surface the error.
    Release,
}

/// What the driver observed of an outbound connect still in progress.
#[derive(Debug, Clone, Copy, PartialEq, Eq, Structural)]
pub enum ConnectProbe {
    /// No pending socket error and the peer address is known.
    Established,
    /// The peer address is not known yet.
    Pending,
    /// The socket reported an error.
    Failed,
}

/// The connection is closed and takes no more data.
#[derive(Debug, Clone, Copy, PartialEq, Eq, Structural)]
pub struct NotConnected;

/// Mathematical model of a connection.
pub ghost struct ConnectionView {
    pub token: usize,
    pub state: ConnectionState,
    /// Bytes queued for the socket, oldest first.
    pub outbound: Seq<u8>,
    /// Bytes read from the socket that no complete line has taken yet.
    pub inbound: Seq<u8>,
    /// Whether the socket is registered for write readiness.
    pub write_interest: bool,
}

/// Once closed, a connection stays closed; it never goes back to
/// connecting; its handle never changes.
pub open spec fn may_follow(before: ConnectionView, after: ConnectionView) -> bool {
    &&& after.token == before.token
    &&& before.state == ConnectionState::Closed ==> after.state == ConnectionState::Closed
    &&& after.state == ConnectionState::Connecting ==> before.state == ConnectionState::Connecting
}

/// Between sends the queue only loses bytes from its front, to the socket
/// or to a close: what is left is a suffix of what was queued.
pub open spec fn only_drains(before: ConnectionView, after: ConnectionView) -> bool {
    &&& after.outbound.len() <= before.outbound.len()
    &&& forall|i: int|
        0 <= i < after.outbound.len() ==> #[trigger] after.outbound[i] == before.outbound[i
            + before.outbound.len() - after.outbound.len()]
}

/// The model of a connection after it closed: buffers discarded.
pub open spec fn closed_view(v: ConnectionView) -> ConnectionView {
    ConnectionView {
        state: ConnectionState::Closed,
        outbound: Seq::empty(),
        inbound: Seq::empty(),
        write_interest: false,
        ..v
    }
}

/// How a connection whose queue just drained settles its write interest:
/// a raised interest is lowered back to read readiness.
pub open spec fn drained(before: ConnectionView, after: ConnectionView, step: FlushStep) -> bool {
    if before.write_interest {
        &&& step == FlushStep::Reregister(Interests::Readable)
        &&& after == (ConnectionView { write_interest: false, ..before })
    } else {
        &&& step == FlushStep::Done
        &&& after == before
    }
}

/// Along any run of a connection, a state reached after it closed is
/// closed too: `Closed` is never left for `Connecting` or `Connected`.
pub proof fn lemma_closed_stays_closed(run: Seq<ConnectionView>, i: int, j: int)
    requires
        forall|k: int| 0 <= k < run.len() - 1 ==> may_follow(#[trigger] run[k], run[k + 1]),
        0 <= i <= j < run.len(),
        run[i].state == ConnectionState::Closed,
    ensures
        run[j].state == ConnectionState::Closed,
    decreases j - i,
{
    if i < j {
        lemma_closed_stays_closed(run, i, j - 1);
        assert(may_follow(run[j - 1], run[j]));
    }
}

/// A frame written with its terminator comes back whole as the first line
/// of the bytes that carry it: `take_line` on the wire yields the frame.
pub proof fn lemma_line_round_trip(frame: Seq<u8>, rest: Seq<u8>, line: Seq<u8>)
    requires
        !frame.contains(NEWLINE),
        line.len() < (frame.push(NEWLINE) + rest).len(),
        (frame.push(NEWLINE) + rest)[line.len() as int] == NEWLINE,
        line == (frame.push(NEWLINE) + rest).take(line.len() as int),
        !line.contains(NEWLINE),
    ensures
        line == frame,
        (frame.push(NEWLINE) + rest).skip(line.len() + 1int) == rest,
{
    let wire = frame.push(NEWLINE) + rest;
    if line.len() < frame.len() {
        assert(frame[line.len() as int] == wire[line.len() as int]);
        assert(frame.contains(NEWLINE));
    } else if line.len() > frame.len() {
        assert(line[frame.len() as int] == wire[frame.len() as int]);
        assert(line.contains(NEWLINE));
    }
    assert(line =~= frame);
    assert(wire.skip(line.len() + 1int) =~= rest);
}

/// Copies `src[from..]` to the end of `buf`.
fn append_from(buf: &mut Vec<u8>, src: &[u8], from: usize)
    requires
        from <= src@.len(),
        old(buf)@.len() + src@.len() - from <= usize::MAX,
    ensures
        final(buf)@ == old(buf)@ + src@.subrange(from as int, src@.len() as int),
{
    let mut i: usize = from;
    while i < src.len()
        invariant
            from <= i <= src@.len(),
            old(buf)@.len() + src@.len() - from <= usize::MAX,
            buf@ == old(buf)@ + src@.subrange(from as int, i as int),
        decreases src@.len() - i,
    {
        buf.push(src[i]);
        i = i + 1;
        assert(buf@ =~= old(buf)@ + src@.subrange(from as int, i as int));
    }
}

/// Hands out the borrow it is given.
fn lend<T>(x: &mut T) -> (r: &mut T)
    ensures
        *r == *old(x),
        *final(x) == *final(r),
    no_unwind
{
    x
}

/// A peer socket together with its framing buffers and lifecycle state.
#[derive(Debug)]
pub struct Connection<S> {
    token: usize,
    stream: S,
    state: ConnectionState,
    write_buf: Vec<u8>,
    write_pos: usize,
    read_buf: Vec<u8>,
    read_pos: usize,
    write_interest: bool,
}

impl<S> View for Connection<S> {
    type V = ConnectionView;

    closed spec fn view(&self) -> ConnectionView {
        ConnectionView {
            token: self.token,
            state: self.state,
            outbound: self.write_buf@.subrange(self.write_pos as int, self.write_buf@.len() as int),
            inbound: self.read_buf@.subrange(self.read_pos as int, self.read_buf@.len() as int),
            write_interest: self.write_interest,
        }
    }
}

impl<S> Connection<S> {
    #[verifier::type_invariant]
    spec fn inv(self) -> bool {
        &&& self.write_pos <= self.write_buf@.len()
        &&& self.read_pos <= self.read_buf@.len()
        &&& self.state == ConnectionState::Closed ==> {
            &&& self.write_buf@.len() == 0
            &&& self.read_buf@.len() == 0
            &&& self.write_pos == 0
            &&& self.read_pos == 0
            &&& !self.write_interest
        }
    }

    /// Wraps a socket registered under `token`. A connecting socket is
    /// registered for write readiness, a connected one for read readiness.
    pub fn new(token: usize, stream: S, state: ConnectionState) -> (c: Self)
        ensures
            c@ == (ConnectionView {
                token,
                state,
                outbound: Seq::empty(),
                inbound: Seq::empty(),
                write_interest: state == ConnectionState::Connecting,
            }),
    {
        let c = Connection {
            token,
            stream,
            state,
            write_buf: Vec::new(),
            write_pos: 0,
            read_buf: Vec::new(),
            read_pos: 0,
            write_interest: state == ConnectionState::Connecting,
        };
        assert(c@.outbound =~= Seq::<u8>::empty());
        assert(c@.inbound =~= Seq::<u8>::empty());
        c
    }

    /// The reactor handle that this connection's socket is registered under.
    pub fn token(&self) -> (r: usize)
        ensures
            r == self@.token,
    {
        self.token
    }

    /// The lifecycle state.
    pub fn state(&self) -> (r: ConnectionState)
        ensures
            r == self@.state,
    {
        self.state
    }

    /// Whether the socket is registered for write readiness.
    pub fn write_interest(&self) -> (r: bool)
        ensures
            r == self@.write_interest,
    {
        self.write_interest
    }

    /// The socket.
    pub fn stream(&self) -> &S {
        &self.stream
    }

    /// The socket, for the driver's reads, writes and registrations.
    pub fn stream_mut(&mut self) -> (r: &mut S)
        ensures
            final(self)@ == old(self)@,
    {
        proof {
            use_type_invariant(&*self);
        }
        lend(&mut self.stream)
    }

    /// Number of bytes queued that the socket has not taken yet.
    pub fn queued_bytes_len(&self) -> (r: usize)
        ensures
            r == self@.outbound.len(),
    {
        proof {
            use_type_invariant(self);
        }
        self.write_buf.len() - self.write_pos
    }

    /// Number of bytes read that no complete line has taken yet.
    pub fn unread_bytes_len(&self) -> (r: usize)
        ensures
            r == self@.inbound.len(),
    {
        proof {
            use_type_invariant(self);
        }
        self.read_buf.len() - self.read_pos
    }

    /// The bytes queued that the socket has not taken yet.
    pub fn queued_bytes(&self) -> (r: &[u8])
        ensures
            r@ == self@.outbound,
    {
        proof {
            use_type_invariant(self);
        }
        vstd::slice::slice_subrange(self.write_buf.as_slice(), self.write_pos, self.write_buf.len())
    }

    /// Moves to `Closed` and drops both buffers.
    fn discard(&mut self)
        ensures
            final(self)@ == closed_view(old(self)@),
    {
        proof {
            use_type_invariant(&*self);
        }
        self.write_pos = 0;
        self.write_buf = Vec::new();
        self.read_pos = 0;
        self.read_buf = Vec::new();
        self.write_interest = false;
        self.state = ConnectionState::Closed;
        assert(self@.outbound =~= Seq::<u8>::empty());
        assert(self@.inbound =~= Seq::<u8>::empty());
    }

    /// Closes the connection: the queued and unread bytes are discarded.
    /// Returns whether it was open, that is whether the driver must now
    /// deregister the socket and shut it down. Closing again changes
    /// nothing.
    pub fn close(&mut self) -> (release: bool)
        ensures
            release == (old(self)@.state != ConnectionState::Closed),
            final(self)@ == closed_view(old(self)@),
            old(self)@.state == ConnectionState::Closed ==> final(self)@ == old(self)@,
            only_drains(old(self)@, final(self)@),
            may_follow(old(self)@, final(self)@),
    {
        proof {
            use_type_invariant(&*self);
        }
        if self.state == ConnectionState::Closed {
            assert(self@.outbound =~= Seq::<u8>::empty());
            assert(self@.inbound =~= Seq::<u8>::empty());
            return false;
        }
        self.discard();
        true
    }

    /// Takes the queued bytes out, leaving the queue empty.
    fn take_outbound(&mut self) -> (buf: Vec<u8>)
        ensures
            buf@ == old(self)@.outbound,
            final(self)@ == (ConnectionView { outbound: Seq::empty(), ..old(self)@ }),
            final(self).write_pos == 0,
    {
        proof {
            use_type_invariant(&*self);
        }
        let pos = self.write_pos;
        self.write_pos = 0;
        let mut buf: Vec<u8> = Vec::new();
        core::mem::swap(&mut buf, &mut self.write_buf);
        assert(self@.outbound =~= Seq::<u8>::empty());
        if pos == 0 {
            assert(buf@ =~= buf@.subrange(0, buf@.len() as int));
            buf
        } else {
            let mut rest: Vec<u8> = Vec::new();
            let total: usize = buf.len();
            assert(total == buf@.len());
            append_from(&mut rest, buf.as_slice(), pos);
            assert(rest@ =~= buf@.subrange(pos as int, buf@.len() as int));
            rest
        }
    }

    /// Takes the unread bytes out, leaving the read buffer empty.
    fn take_inbound(&mut self) -> (buf: Vec<u8>)
        ensures
            buf@ == old(self)@.inbound,
            final(self)@ == (ConnectionView { inbound: Seq::empty(), ..old(self)@ }),
            final(self).read_pos == 0,
    {
        proof {
            use_type_invariant(&*self);
        }
        let pos = self.read_pos;
        self.read_pos = 0;
        let mut buf: Vec<u8> = Vec::new();
        core::mem::swap(&mut buf, &mut self.read_buf);
        assert(self@.inbound =~= Seq::<u8>::empty());
        if pos == 0 {
            assert(buf@ =~= buf@.subrange(0, buf@.len() as int));
            buf
        } else {
            let mut rest: Vec<u8> = Vec::new();
            let total: usize = buf.len();
            assert(total == buf@.len());
            append_from(&mut rest, buf.as_slice(), pos);
            assert(rest@ =~= buf@.subrange(pos as int, buf@.len() as int));
            rest
        }
    }

    /// Queues one encoded JSON value followed by the line terminator.
    /// A closed connection refuses it. Otherwise the result says whether
    /// the driver should flush now: it should when connected; while
    /// connecting the bytes wait for the connect to complete.
    pub fn send(&mut self, frame: &[u8]) -> (r: Result<bool, NotConnected>)
        requires
            old(self)@.outbound.len() + frame@.len() < usize::MAX,
        ensures
            may_follow(old(self)@, final(self)@),
            old(self)@.state == ConnectionState::Closed ==> {
                &&& r == Err::<bool, NotConnected>(NotConnected)
                &&& final(self)@ == old(self)@
            },
            old(self)@.state != ConnectionState::Closed ==> {
                &&& r == Ok::<bool, NotConnected>(old(self)@.state == ConnectionState::Connected)
                &&& final(self)@ == (ConnectionView {
                    outbound: old(self)@.outbound + frame@.push(NEWLINE),
                    ..old(self)@
                })
            },
    {
        proof {
            use_type_invariant(&*self);
        }
        if self.state == ConnectionState::Closed {
            return Err(NotConnected);
        }
        let mut buf = self.take_outbound();
        append_from(&mut buf, frame, 0);
        buf.push(NEWLINE);
        proof {
            use_type_invariant(&*self);
        }
        self.write_buf = buf;
        assert(self@.outbound =~= old(self)@.outbound + frame@.push(NEWLINE));
        Ok(self.state == ConnectionState::Connected)
    }

    /// Lowers a raised write interest once the queue is empty.
    fn settle_drained(&mut self) -> (step: FlushStep)
        ensures
            drained(old(self)@, final(self)@, step),
    {
        proof {
            use_type_invariant(&*self);
        }
        if self.write_interest {
            self.write_interest = false;
            FlushStep::Reregister(Interests::Readable)
        } else {
            FlushStep::Done
        }
    }

    /// Starts a flush of the queued bytes. Only a connected connection
    /// writes; with nothing queued, a raised write interest is lowered.
    pub fn begin_flush(&mut self) -> (step: FlushStep)
        ensures
            only_drains(old(self)@, final(self)@),
            may_follow(old(self)@, final(self)@),
            old(self)@.state != ConnectionState::Connected ==> {
                &&& step == FlushStep::Done
                &&& final(self)@ == old(self)@
            },
            old(self)@.state == ConnectionState::Connected && old(self)@.outbound.len() > 0 ==> {
                &&& step == FlushStep::Write
                &&& final(self)@ == old(self)@
            },
            old(self)@.state == ConnectionState::Connected && old(self)@.outbound.len() == 0
                ==> drained(old(self)@, final(self)@, step),
    {
        proof {
            use_type_invariant(&*self);
        }
        if self.state != ConnectionState::Connected {
            FlushStep::Done
        } else if self.write_pos < self.write_buf.len() {
            FlushStep::Write
        } else {
            self.settle_drained()
        }
    }

    /// Takes the outcome of writing `queued_bytes()`. Written bytes leave
    /// the queue; a queue that drains lowers a raised write interest; a
    /// socket that would block raises it; a failure, or a write that took
    /// nothing, closes the connection.
    pub fn on_write(&mut self, outcome: WriteOutcome) -> (step: FlushStep)
        requires
            match outcome {
                WriteOutcome::Written(n) => n <= old(self)@.outbound.len(),
                _ => true,
            },
        ensures
            only_drains(old(self)@, final(self)@),
            may_follow(old(self)@, final(self)@),
            old(self)@.state != ConnectionState::Connected ==> {
                &&& step == FlushStep::Done
                &&& final(self)@ == old(self)@
            },
            old(self)@.state == ConnectionState::Connected ==> match outcome {
                WriteOutcome::Written(n) => if n == 0 {
                    &&& step == FlushStep::Release
                    &&& final(self)@ == closed_view(old(self)@)
                } else if n < old(self)@.outbound.len() {
                    &&& step == FlushStep::Write
                    &&& final(self)@ == (ConnectionView {
                        outbound: old(self)@.outbound.skip(n as int),
                        ..old(self)@
                    })
                } else {
                    drained(
                        ConnectionView { outbound: Seq::empty(), ..old(self)@ },
                        final(self)@,
                        step,
                    )
                },
                WriteOutcome::WouldBlock => if old(self)@.write_interest {
                    &&& step == FlushStep::Done
                    &&& final(self)@ == old(self)@
                } else {
                    &&& step == FlushStep::Reregister(Interests::ReadableWritable)
                    &&& final(self)@ == (ConnectionView { write_interest: true, ..old(self)@ })
                },
                WriteOutcome::Failed => {
                    &&& step == FlushStep::Release
                    &&& final(self)@ == closed_view(old(self)@)
                },
            },
    {
        proof {
            use_type_invariant(&*self);
        }
        if self.state != ConnectionState::Connected {
            return FlushStep::Done;
        }
        match outcome {
            WriteOutcome::Written(n) => {
                if n == 0 {
                    self.discard();
                    FlushStep::Release
                } else if n < self.write_buf.len() - self.write_pos {
                    self.write_pos = self.write_pos + n;
                    assert(self@.outbound =~= old(self)@.outbound.skip(n as int));
                    FlushStep::Write
                } else {
                    self.write_pos = 0;
                    self.write_buf = Vec::new();
                    assert(self@.outbound =~= Seq::<u8>::empty());
                    self.settle_drained()
                }
            },
            WriteOutcome::WouldBlock => {
                if self.write_interest {
                    FlushStep::Done
                } else {
                    self.write_interest = true;
                    FlushStep::Reregister(Interests::ReadableWritable)
                }
            },
            WriteOutcome::Failed => {
                self.discard();
                FlushStep::Release
            },
        }
    }

    /// Takes what the driver observed of a connect in progress and returns
    /// the new state. An established connect makes the connection
    /// connected; a failed one closes it (the driver then releases the
    /// socket). Outside `Connecting` nothing changes.
    pub fn complete_connect(&mut self, probe: ConnectProbe) -> (r: ConnectionState)
        ensures
            only_drains(old(self)@, final(self)@),
            may_follow(old(self)@, final(self)@),
            r == final(self)@.state,
            old(self)@.state != ConnectionState::Connecting ==> final(self)@ == old(self)@,
            old(self)@.state == ConnectionState::Connecting ==> final(self)@ == match probe {
                ConnectProbe::Established => ConnectionView {
                    state: ConnectionState::Connected,
                    ..old(self)@
                },
                ConnectProbe::Pending => old(self)@,
                ConnectProbe::Failed => closed_view(old(self)@),
            },
    {
        proof {
            use_type_invariant(&*self);
        }
        if self.state == ConnectionState::Connecting {
            match probe {
                ConnectProbe::Established => {
                    self.state = ConnectionState::Connected;
                },
                ConnectProbe::Pending => {},
                ConnectProbe::Failed => {
                    self.discard();
                },
            }
        }
        self.state
    }

    /// Appends bytes read from the socket. A closed connection ignores them.
    pub fn receive(&mut self, bytes: &[u8])
        requires
            old(self)@.inbound.len() + bytes@.len() <= usize::MAX,
        ensures
            only_drains(old(self)@, final(self)@),
            may_follow(old(self)@, final(self)@),
            old(self)@.state == ConnectionState::Closed ==> final(self)@ == old(self)@,
            old(self)@.state != ConnectionState::Closed ==> final(self)@ == (ConnectionView {
                inbound: old(self)@.inbound + bytes@,
                ..old(self)@
            }),
    {
        proof {
            use_type_invariant(&*self);
        }
        if self.state == ConnectionState::Closed {
            return;
        }
        let mut buf = self.take_inbound();
        append_from(&mut buf, bytes, 0);
        proof {
            use_type_invariant(&*self);
        }
        self.read_buf = buf;
        assert(self@.inbound =~= old(self)@.inbound + bytes@);
    }

    /// Takes the first complete line out of the unread bytes, without its
    /// terminator. Without a terminator among them, nothing changes.
    pub fn take_line(&mut self) -> (r: Option<Vec<u8>>)
        ensures
            only_drains(old(self)@, final(self)@),
            may_follow(old(self)@, final(self)@),
            match r {
                Some(line) => {
                    &&& line@.len() < old(self)@.inbound.len()
                    &&& old(self)@.inbound[line@.len() as int] == NEWLINE
                    &&& line@ == old(self)@.inbound.take(line@.len() as int)
                    &&& !line@.contains(NEWLINE)
                    &&& final(self)@ == (ConnectionView {
                        inbound: old(self)@.inbound.skip(line@.len() + 1int),
                        ..old(self)@
                    })
                },
                None => {
                    &&& !old(self)@.inbound.contains(NEWLINE)
                    &&& final(self)@ == old(self)@
                },
            },
    {
        proof {
            use_type_invariant(&*self);
        }
        let ghost pending = self@.inbound;
        let start = self.read_pos;
        let end = self.read_buf.len();
        let mut i: usize = start;
        while i < end && self.read_buf[i] != NEWLINE
            invariant
                start <= i <= end,
                end == self.read_buf@.len(),
                start == self.read_pos,
                pending == self.read_buf@.subrange(start as int, end as int),
                forall|j: int| start <= j < i ==> self.read_buf@[j] != NEWLINE,
            decreases end - i,
        {
            i = i + 1;
        }
        if i == end {
            assert(!pending.contains(NEWLINE)) by {
                assert forall|k: int| 0 <= k < pending.len() implies pending[k] != NEWLINE by {
                    assert(pending[k] == self.read_buf@[start + k]);
                }
            }
            return None;
        }
        let mut line: Vec<u8> = Vec::new();
        append_from(&mut line, vstd::slice::slice_subrange(self.read_buf.as_slice(), start, i), 0);
        assert(line@ =~= pending.take(i - start));
        assert(!line@.contains(NEWLINE)) by {
            assert forall|k: int| 0 <= k < line@.len() implies line@[k] != NEWLINE by {
                assert(line@[k] == self.read_buf@[start + k]);
            }
        }
        if i + 1 == end {
            self.read_pos = 0;
            self.read_buf = Vec::new();
        } else {
            self.read_pos = i + 1;
        }
        assert(self@.inbound =~= pending.skip(line@.len() + 1int));
        Some(line)
    }

    /// Takes the outcome of reading from the socket into `chunk`. The bytes
    /// read join the unread ones; the end of the stream, a failure, or more
    /// bytes than memory can hold close the connection. A closed
    /// connection reads nothing more.
    pub fn on_read(&mut self, outcome: ReadOutcome, chunk: &[u8]) -> (step: ReadStep)
        requires
            match outcome {
                ReadOutcome::Read(n) => n <= chunk@.len(),
                _ => true,
            },
        ensures
            only_drains(old(self)@, final(self)@),
            may_follow(old(self)@, final(self)@),
            old(self)@.state == ConnectionState::Closed ==> {
                &&& step == ReadStep::Pause
                &&& final(self)@ == old(self)@
            },
            old(self)@.state != ConnectionState::Closed ==> match outcome {
                ReadOutcome::Read(n) => if n == 0 || old(self)@.inbound.len() + n > usize::MAX {
                    &&& step == ReadStep::Release
                    &&& final(self)@ == closed_view(old(self)@)
                } else {
                    &&& step == ReadStep::Continue
                    &&& final(self)@ == (ConnectionView {
                        inbound: old(self)@.inbound + chunk@.take(n as int),
                        ..old(self)@
                    })
                },
                ReadOutcome::WouldBlock => {
                    &&& step == ReadStep::Pause
                    &&& final(self)@ == old(self)@
                },
                ReadOutcome::Failed => {
                    &&& step == ReadStep::Release
                    &&& final(self)@ == closed_view(old(self)@)
                },
            },
    {
        proof {
            use_type_invariant(&*self);
        }
        if self.state == ConnectionState::Closed {
            return ReadStep::Pause;
        }
        match outcome {
            ReadOutcome::Read(n) => {
                if n == 0 || self.read_buf.len() - self.read_pos > usize::MAX - n {
                    self.discard();
                    ReadStep::Release
                } else {
                    self.receive(vstd::slice::slice_subrange(chunk, 0, n));
                    ReadStep::Continue
                }
            },
            ReadOutcome::WouldBlock => ReadStep::Pause,
            ReadOutcome::Failed => {
                self.discard();
                ReadStep::Release
            },
        }
    }
}

} // verus!
