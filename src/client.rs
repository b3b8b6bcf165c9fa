//! Client side: at most one connection to the server, opened on demand,
//! and the queue of received responses.
use std::collections::VecDeque;
use vstd::prelude::*;

use crate::connection::{closed_view, Connection, ConnectionState, ConnectionView};

verus! {

/// Mathematical model of a client.
pub ghost struct ClientView<RESP> {
    /// The handle the connection's socket is registered under.
    pub token: usize,
    /// The connection, while there is one.
    pub connection: Option<ConnectionView>,
    /// Received responses, oldest first.
    pub responses: Seq<RESP>,
}

/// The model of a connection the client just opened.
pub open spec fn opened_view(token: usize) -> ConnectionView {
    ConnectionView {
        token,
        state: ConnectionState::Connecting,
        outbound: Seq::empty(),
        inbound: Seq::empty(),
        write_interest: true,
    }
}

/// The bookkeeping of a client: its handle, its connection and the
/// responses received on it.
#[derive(Debug)]
pub struct RpcClient<S, RESP> {
    token: usize,
    connection: Option<Connection<S>>,
    responses: VecDeque<RESP>,
}

impl<S, RESP> View for RpcClient<S, RESP> {
    type V = ClientView<RESP>;

    closed spec fn view(&self) -> ClientView<RESP> {
        ClientView {
            token: self.token,
            connection: match self.connection {
                Some(c) => Some(c@),
                None => None,
            },
            responses: self.responses@,
        }
    }
}

impl<S, RESP> RpcClient<S, RESP> {
    /// A client whose connection will be registered under `token`. It
    /// connects on first use.
    pub fn new(token: usize) -> (c: Self)
        ensures
            c@ == (ClientView::<RESP> { token, connection: None, responses: Seq::empty() }),
    {
        RpcClient { token, connection: None, responses: VecDeque::new() }
    }

    /// The handle of the client's connection.
    pub fn token(&self) -> (r: usize)
        ensures
            r == self@.token,
    {
        self.token
    }

    /// Whether the client holds a connection.
    pub fn has_connection(&self) -> (r: bool)
        ensures
            r == self@.connection is Some,
    {
        self.connection.is_some()
    }

    /// The client's connection.
    pub fn connection(&self) -> (r: Option<&Connection<S>>)
        ensures
            match r {
                Some(c) => self@.connection == Some(c@),
                None => self@.connection is None,
            },
    {
        match &self.connection {
            Some(c) => Some(c),
            None => None,
        }
    }

    /// Starts a session on a socket whose connect is in progress and which
    /// is registered for write readiness under the client's handle. The
    /// responses of earlier sessions are discarded, so none of them is
    /// ever received after this.
    pub fn open(&mut self, stream: S)
        ensures
            final(self)@ == (ClientView {
                connection: Some(opened_view(old(self)@.token)),
                responses: Seq::empty(),
                ..old(self)@
            }),
    {
        let c = Connection::new(self.token, stream, ConnectionState::Connecting);
        self.connection = Some(c);
        self.responses.clear();
    }

    /// Takes the connection out, for the driver to work on its socket.
    pub fn take_connection(&mut self) -> (r: Option<Connection<S>>)
        ensures
            match r {
                Some(c) => old(self)@.connection == Some(c@),
                None => old(self)@.connection is None,
            },
            final(self)@ == (ClientView { connection: None, ..old(self)@ }),
    {
        self.connection.take()
    }

    /// Puts the connection back after the driver worked on it, unless that
    /// work failed on I/O: a transport failure ends the session, and the
    /// next send connects again. A failure to decode a response leaves it.
    pub fn restore_connection(&mut self, conn: Connection<S>, io_failed: bool)
        ensures
            final(self)@ == (ClientView {
                connection: if io_failed {
                    None
                } else {
                    Some(conn@)
                },
                ..old(self)@
            }),
    {
        if io_failed {
            self.connection = None;
        } else {
            self.connection = Some(conn);
        }
    }

    /// Number of bytes queued that the socket has not taken yet; zero
    /// without a connection.
    pub fn queued_bytes_len(&self) -> (r: usize)
        ensures
            r == match self@.connection {
                Some(c) => c.outbound.len(),
                None => 0,
            },
    {
        match &self.connection {
            Some(c) => c.queued_bytes_len(),
            None => 0,
        }
    }

    /// Queues a response received on the current connection.
    pub fn push_response(&mut self, response: RESP)
        ensures
            final(self)@ == (ClientView {
                responses: old(self)@.responses.push(response),
                ..old(self)@
            }),
    {
        self.responses.push_back(response);
    }

    /// Takes the oldest received response.
    pub fn try_recv(&mut self) -> (r: Option<RESP>)
        ensures
            match r {
                Some(item) => {
                    &&& old(self)@.responses.len() > 0
                    &&& item == old(self)@.responses[0]
                    &&& final(self)@ == (ClientView {
                        responses: old(self)@.responses.drop_first(),
                        ..old(self)@
                    })
                },
                None => {
                    &&& old(self)@.responses.len() == 0
                    &&& final(self)@ == old(self)@
                },
            },
    {
        let r = self.responses.pop_front();
        assert(self@.responses =~= old(self)@.responses.drop_first() || r is None);
        r
    }

    /// Ends the session. Returns the connection when it was still open:
    /// the driver then deregisters its socket and shuts it down. Closing
    /// again changes nothing.
    pub fn close(&mut self) -> (r: Option<Connection<S>>)
        ensures
            final(self)@ == (ClientView { connection: None, ..old(self)@ }),
            match r {
                Some(c) => {
                    &&& old(self)@.connection matches Some(before) && before.state
                        != ConnectionState::Closed
                    &&& c@ == closed_view(old(self)@.connection->Some_0)
                },
                None => old(self)@.connection is None || old(self)@.connection->Some_0.state
                    == ConnectionState::Closed,
            },
    {
        match self.connection.take() {
            Some(mut c) => {
                if c.close() {
                    Some(c)
                } else {
                    None
                }
            },
            None => None,
        }
    }
}

} // verus!
