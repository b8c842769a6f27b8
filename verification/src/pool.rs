//! Error counters of a request, and the connection state that a worker
//! keeps between its requests.
use vstd::prelude::*;

verus! {

/// Error counts seen while running requests.
#[derive(Debug, Clone, Copy, PartialEq, Eq, Structural)]
pub struct ErrorStats {
    pub send_errors: usize,
    pub recv_errors: usize,
    pub quic_errors: usize,
    pub stream_reset_errors: usize,
}

impl Default for ErrorStats {
    fn default() -> (r: ErrorStats)
        ensures
            r == ErrorStats::zero(),
    {
        ErrorStats { send_errors: 0, recv_errors: 0, quic_errors: 0, stream_reset_errors: 0 }
    }
}

/// Counts as four unbounded numbers: send, receive, QUIC, stream reset.
pub type ErrorCounts = (nat, nat, nat, nat);

impl ErrorStats {
    /// No error of any kind.
    pub open spec fn zero() -> ErrorStats {
        ErrorStats { send_errors: 0, recv_errors: 0, quic_errors: 0, stream_reset_errors: 0 }
    }

    /// The four counts.
    pub open spec fn counts(self) -> ErrorCounts {
        (
            self.send_errors as nat,
            self.recv_errors as nat,
            self.quic_errors as nat,
            self.stream_reset_errors as nat,
        )
    }

    /// Can `other` be added to these counts without any of them leaving
    /// `usize`?
    pub open spec fn can_add(self, other: ErrorStats) -> bool {
        &&& self.send_errors + other.send_errors <= usize::MAX
        &&& self.recv_errors + other.recv_errors <= usize::MAX
        &&& self.quic_errors + other.quic_errors <= usize::MAX
        &&& self.stream_reset_errors + other.stream_reset_errors <= usize::MAX
    }

    /// Is any count above zero?
    pub open spec fn any_errors(self) -> bool {
        self.send_errors > 0 || self.recv_errors > 0 || self.quic_errors > 0
            || self.stream_reset_errors > 0
    }

    /// No error of any kind.
    pub fn new() -> (r: ErrorStats)
        ensures
            r == ErrorStats::zero(),
    {
        ErrorStats { send_errors: 0, recv_errors: 0, quic_errors: 0, stream_reset_errors: 0 }
    }

    /// Adds the counts of `other`, kind by kind.
    pub fn add(&mut self, other: &ErrorStats)
        requires
            old(self).can_add(*other),
        ensures
            final(self).counts() == add_counts(old(self).counts(), other.counts()),
    {
        self.send_errors = self.send_errors + other.send_errors;
        self.recv_errors = self.recv_errors + other.recv_errors;
        self.quic_errors = self.quic_errors + other.quic_errors;
        self.stream_reset_errors = self.stream_reset_errors + other.stream_reset_errors;
    }

    /// Was any error counted? The report lists the error kinds only then.
    pub fn has_errors(&self) -> (r: bool)
        ensures
            r == self.any_errors(),
            self.send_errors > 0 ==> r,
            self.recv_errors > 0 ==> r,
            self.quic_errors > 0 ==> r,
            self.stream_reset_errors > 0 ==> r,
            self.send_errors == 0 && self.recv_errors == 0 && self.quic_errors == 0
                && self.stream_reset_errors == 0 ==> !r,
    {
        self.send_errors > 0 || self.recv_errors > 0 || self.quic_errors > 0
            || self.stream_reset_errors > 0
    }
}

/// The report shows an error breakdown exactly when an error of some kind
/// was counted: any send, receive, QUIC or stream-reset error is enough, and
/// a run without errors shows none.
pub proof fn law_error_breakdown_shown(e: ErrorStats)
    ensures
        e.send_errors > 0 ==> e.any_errors(),
        e.recv_errors > 0 ==> e.any_errors(),
        e.quic_errors > 0 ==> e.any_errors(),
        e.stream_reset_errors > 0 ==> e.any_errors(),
        e.send_errors == 0 && e.recv_errors == 0 && e.quic_errors == 0 && e.stream_reset_errors == 0
            ==> !e.any_errors(),
{
}

/// Error counts added kind by kind.
pub open spec fn add_counts(a: ErrorCounts, b: ErrorCounts) -> ErrorCounts {
    (a.0 + b.0, a.1 + b.1, a.2 + b.2, a.3 + b.3)
}

/// Adding error counts does not depend on the order: the totals of a run
/// are the same whichever worker reports first.
pub proof fn law_error_counts_order_free(a: ErrorCounts, b: ErrorCounts, c: ErrorCounts)
    ensures
        add_counts(a, b) == add_counts(b, a),
        add_counts(add_counts(a, b), c) == add_counts(a, add_counts(b, c)),
        add_counts(a, (0, 0, 0, 0)) == a,
{
}

/// The connection that a worker keeps for its requests, with the numbering
/// of its request streams.
///
/// `Q` is the QUIC connection, `H` the HTTP/3 connection on top of it, `S`
/// the socket and `A` a socket address.
pub struct ConnectionPoolState<Q, H, S, A> {
    pub quic_conn: Option<Q>,
    pub h3_conn: Option<H>,
    pub socket: Option<S>,
    pub local_addr: Option<A>,
    pub peer_addr: Option<A>,
    pub next_stream_id: u64,
    pub reuse_count: usize,
    pub failed: bool,
}

impl<Q, H, S, A> Default for ConnectionPoolState<Q, H, S, A> {
    /// No connection yet; stream numbering starts at 0.
    fn default() -> (r: Self)
        ensures
            r.quic_conn is None,
            r.h3_conn is None,
            r.socket is None,
            r.local_addr is None,
            r.peer_addr is None,
            r.next_stream_id == 0,
            r.reuse_count == 0,
            !r.failed,
    {
        ConnectionPoolState {
            quic_conn: None,
            h3_conn: None,
            socket: None,
            local_addr: None,
            peer_addr: None,
            next_stream_id: 0,
            reuse_count: 0,
            failed: false,
        }
    }
}

/// Why a request could not go out on the pooled connection.
#[derive(Debug, Clone, Copy, PartialEq, Eq, Structural)]
pub enum PoolError {
    /// The QUIC connection, the HTTP/3 connection or the socket is missing.
    ConnectionLost,
}

impl<Q, H, S, A> ConnectionPoolState<Q, H, S, A> {
    /// The connection parts are all present.
    pub open spec fn is_connected(&self) -> bool {
        self.quic_conn is Some && self.h3_conn is Some && self.socket is Some
    }

    /// Is this a stream number that a client opens for a request (QUIC's
    /// client-initiated bidirectional streams: 0, 4, 8, ...)?
    pub open spec fn is_client_bidi_stream(id: u64) -> bool {
        id % 4 == 0
    }

    /// Hands out the next stream number and counts one more use of the
    /// connection. Numbers go up by 4, so that a state that starts at 0
    /// hands out 0, 4, 8, 12, ...
    pub fn allocate_stream_id(&mut self) -> (id: u64)
        requires
            old(self).next_stream_id + 4 <= u64::MAX,
            old(self).reuse_count < usize::MAX,
        ensures
            id == old(self).next_stream_id,
            final(self).next_stream_id == old(self).next_stream_id + 4,
            final(self).reuse_count == old(self).reuse_count + 1,
            final(self).quic_conn == old(self).quic_conn,
            final(self).h3_conn == old(self).h3_conn,
            final(self).socket == old(self).socket,
            final(self).local_addr == old(self).local_addr,
            final(self).peer_addr == old(self).peer_addr,
            final(self).failed == old(self).failed,
            Self::is_client_bidi_stream(old(self).next_stream_id) ==> Self::is_client_bidi_stream(id)
                && Self::is_client_bidi_stream(final(self).next_stream_id),
    {
        let id = self.next_stream_id;
        self.next_stream_id = self.next_stream_id + 4;
        self.reuse_count = self.reuse_count + 1;
        id
    }

    /// Marks the connection as not to be reused (after a GOAWAY or a
    /// response timeout).
    pub fn mark_failed(&mut self)
        ensures
            final(self).failed,
            final(self).quic_conn == old(self).quic_conn,
            final(self).h3_conn == old(self).h3_conn,
            final(self).socket == old(self).socket,
            final(self).local_addr == old(self).local_addr,
            final(self).peer_addr == old(self).peer_addr,
            final(self).next_stream_id == old(self).next_stream_id,
            final(self).reuse_count == old(self).reuse_count,
    {
        self.failed = true;
    }

    /// Can the connection be used for another request?
    pub fn is_usable(&self) -> (r: bool)
        ensures
            r == (self.is_connected() && !self.failed),
    {
        self.quic_conn.is_some() && self.h3_conn.is_some() && self.socket.is_some() && !self.failed
    }

    /// Keeps a freshly established connection: its parts are stored and the
    /// connection is no longer marked failed; the stream numbering and the
    /// use count stay.
    pub fn install(&mut self, quic_conn: Q, h3_conn: Option<H>, socket: S, local_addr: A, peer_addr: A)
        ensures
            final(self).quic_conn == Some(quic_conn),
            final(self).h3_conn == h3_conn,
            final(self).socket == Some(socket),
            final(self).local_addr == Some(local_addr),
            final(self).peer_addr == Some(peer_addr),
            !final(self).failed,
            final(self).next_stream_id == old(self).next_stream_id,
            final(self).reuse_count == old(self).reuse_count,
    {
        self.quic_conn = Some(quic_conn);
        self.h3_conn = h3_conn;
        self.socket = Some(socket);
        self.local_addr = Some(local_addr);
        self.peer_addr = Some(peer_addr);
        self.failed = false;
    }

    /// Starts a request on the pooled connection: refused when a part of
    /// the connection is missing; otherwise one more use is counted.
    pub fn begin_request(&mut self) -> (r: Result<(), PoolError>)
        requires
            old(self).reuse_count < usize::MAX,
        ensures
            r is Err <==> !old(self).is_connected(),
            r is Err ==> *final(self) == *old(self),
            r is Ok ==> final(self).reuse_count == old(self).reuse_count + 1,
            r is Ok ==> final(self).quic_conn == old(self).quic_conn && final(self).h3_conn
                == old(self).h3_conn && final(self).socket == old(self).socket && final(self).local_addr
                == old(self).local_addr && final(self).peer_addr == old(self).peer_addr
                && final(self).next_stream_id == old(self).next_stream_id && final(self).failed
                == old(self).failed,
    {
        if self.quic_conn.is_none() || self.h3_conn.is_none() || self.socket.is_none() {
            return Err(PoolError::ConnectionLost);
        }
        self.reuse_count = self.reuse_count + 1;
        Ok(())
    }
}

} // verus!
