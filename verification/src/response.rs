//! One HTTP/3 request: the headers that go out, and what the events of the
//! connection make of the response.
use vstd::prelude::*;
use vstd::string::StrSliceExecFns;
use vstd::string::StringSliceAdditionalSpecFns;

use crate::numeric::{decimal_digits, lemma_parse_decimal_digits, parse_u16_range, parse_u16_spec};
use crate::pool::ErrorStats;

verus! {

/// A header field: name and value as bytes.
#[derive(Debug, Clone, PartialEq, Eq)]
pub struct HeaderField {
    pub name: Vec<u8>,
    pub value: Vec<u8>,
}

/// The bytes of `s`.
fn bytes_of(s: &str) -> (r: Vec<u8>)
    ensures
        r@ == s.spec_bytes(),
{
    s.as_bytes_vec()
}

/// The header fields of a GET of `path` on `host`: `:method GET`,
/// `:scheme https`, `:authority host`, `:path path` and
/// `user-agent vex-h3-client`, in this order.
pub fn request_headers(host: &str, path: &str) -> (r: Vec<HeaderField>)
    ensures
        r@.len() == 5,
        r@[0].name@ == ":method".spec_bytes() && r@[0].value@ == "GET".spec_bytes(),
        r@[1].name@ == ":scheme".spec_bytes() && r@[1].value@ == "https".spec_bytes(),
        r@[2].name@ == ":authority".spec_bytes() && r@[2].value@ == host.spec_bytes(),
        r@[3].name@ == ":path".spec_bytes() && r@[3].value@ == path.spec_bytes(),
        r@[4].name@ == "user-agent".spec_bytes() && r@[4].value@ == "vex-h3-client".spec_bytes(),
{
    let mut r: Vec<HeaderField> = Vec::new();
    r.push(HeaderField { name: bytes_of(":method"), value: bytes_of("GET") });
    r.push(HeaderField { name: bytes_of(":scheme"), value: bytes_of("https") });
    r.push(HeaderField { name: bytes_of(":authority"), value: bytes_of(host) });
    r.push(HeaderField { name: bytes_of(":path"), value: bytes_of(path) });
    r.push(HeaderField { name: bytes_of("user-agent"), value: bytes_of("vex-h3-client") });
    r
}

/// The name of the pseudo-header that carries the status: `:status`.
pub open spec fn status_header_name() -> Seq<u8> {
    seq![0x3a, 0x73, 0x74, 0x61, 0x74, 0x75, 0x73]
}

/// The characters of a header value, byte by byte.
///
/// The value is read as text the way `String::from_utf8_lossy` does; for
/// the purpose of reading a number this is the same: the ASCII bytes give the
/// same characters, and any other byte gives a character that is no digit
/// and no `+` either way.
pub open spec fn value_chars(v: Seq<u8>) -> Seq<char> {
    v.map_values(|b: u8| b as char)
}

/// The status code after the header fields `headers` of the response were
/// read, starting from `code`: each `:status` field whose value reads as a
/// `u16` sets the code; other fields leave it.
pub open spec fn status_after(code: u16, headers: Seq<HeaderField>) -> u16
    decreases headers.len(),
{
    if headers.len() == 0 {
        code
    } else {
        let before = status_after(code, headers.drop_last());
        let h = headers.last();
        if h.name@ == status_header_name() {
            match parse_u16_spec(value_chars(h.value@)) {
                Some(c) => c,
                None => before,
            }
        } else {
            before
        }
    }
}

/// Only a `:status` field sets the status: a field with any other name
/// leaves the code as it was, and a `:status` field whose value is the
/// decimal digits of `n` sets the code to `n`, whatever came before.
pub proof fn law_only_status_field_sets_status(
    code: u16,
    headers: Seq<HeaderField>,
    h: HeaderField,
    n: u16,
)
    ensures
        // `:status` is the bytes 0x3a 's' 't' 'a' 't' 'u' 's'.
        h.name@ != seq![0x3au8, 0x73u8, 0x74u8, 0x61u8, 0x74u8, 0x75u8, 0x73u8] ==> status_after(
            code,
            headers.push(h),
        ) == status_after(code, headers),
        h.name@ == seq![0x3au8, 0x73u8, 0x74u8, 0x61u8, 0x74u8, 0x75u8, 0x73u8] && value_chars(
            h.value@,
        ) == decimal_digits(n as nat) ==> status_after(code, headers.push(h)) == n,
{
    assert(headers.push(h).drop_last() =~= headers);
    assert(headers.push(h).last() == h);
    assert(status_header_name() =~= seq![0x3au8, 0x73u8, 0x74u8, 0x61u8, 0x74u8, 0x75u8, 0x73u8]);
    lemma_parse_decimal_digits(n);
}

const STATUS_NAME: [u8; 7] = [0x3a, 0x73, 0x74, 0x61, 0x74, 0x75, 0x73];

/// Is the header name `:status`?
fn is_status_name(name: &Vec<u8>) -> (r: bool)
    ensures
        r == (name@ == status_header_name()),
{
    let pattern = STATUS_NAME.as_slice();
    assert(pattern@ =~= status_header_name());
    if name.len() != 7 {
        return false;
    }
    let mut i: usize = 0;
    while i < 7
        invariant
            name@.len() == 7,
            pattern@ == status_header_name(),
            i <= 7,
            forall|j: int| 0 <= j < i ==> name@[j] == pattern@[j],
        decreases 7 - i,
    {
        if name[i] != pattern[i] {
            return false;
        }
        i = i + 1;
    }
    assert(name@ =~= status_header_name());
    true
}

/// The status code that a header value names, if it reads as a `u16`.
fn status_from_value(value: &Vec<u8>) -> (r: Option<u16>)
    ensures
        r == parse_u16_spec(value_chars(value@)),
{
    let mut chars: Vec<char> = Vec::new();
    let mut i: usize = 0;
    while i < value.len()
        invariant
            i <= value@.len(),
            chars@ == value_chars(value@.take(i as int)),
        decreases value@.len() - i,
    {
        let b = value[i];
        chars.push(b as char);
        i = i + 1;
        assert(chars@ =~= value_chars(value@.take(i as int)));
    }
    assert(value@.take(i as int) =~= value@);
    let n = chars.len();
    assert(chars@.subrange(0, n as int) =~= chars@);
    parse_u16_range(&chars, 0, n)
}

/// What polling the HTTP/3 connection reported.
pub enum H3Event {
    /// Response headers arrived on a stream.
    Headers { stream_id: u64, headers: Vec<HeaderField> },
    /// Body data can be read on a stream.
    Data { stream_id: u64 },
    /// A stream ended.
    Finished { stream_id: u64 },
    /// A priority update arrived.
    PriorityUpdate,
    /// The peer is closing the connection.
    GoAway,
    /// The peer reset a stream.
    Reset { stream_id: u64 },
    /// Nothing more to read for now.
    Done,
    /// Polling failed.
    Error,
}

/// What to do after an event.
#[derive(Debug, Clone, Copy, PartialEq, Eq, Structural)]
pub enum PollStep {
    /// Poll for the next event.
    Poll,
    /// Read the body of the stream until nothing is left, then poll again.
    ReadBody { stream_id: u64 },
    /// Stop polling for this round.
    Stop,
}

/// What the client knows of the response to its request so far.
pub struct ResponseTracker {
    /// The stream of the response: the first stream that reports headers
    /// or data.
    pub stream_id: Option<u64>,
    /// The status code, 0 until a `:status` header was read.
    pub status_code: u16,
    /// Body bytes received.
    pub bytes_received: usize,
    /// Errors seen during the request.
    pub errors: ErrorStats,
    /// The response is complete, or ended by a reset or a GOAWAY.
    pub response_done: bool,
    /// The peer sent GOAWAY: the connection must not be reused.
    pub goaway: bool,
    /// Keep the body bytes.
    pub verbose: bool,
    /// The body bytes, kept only when `verbose`.
    pub body: Vec<u8>,
}

/// The response to a request that completed.
pub struct ResponseOutcome {
    pub status_code: u16,
    pub bytes_received: usize,
    pub errors: ErrorStats,
    /// The body, when it was kept.
    pub body: Option<Vec<u8>>,
}

/// Why a request got no response.
#[derive(Debug, Clone, Copy, PartialEq, Eq, Structural)]
pub enum ResponseError {
    /// The response did not complete in time.
    Timeout,
}

/// Is `id` the stream of the response, taking the first stream seen as it?
pub open spec fn adopts(stream: Option<u64>, id: u64) -> bool {
    stream is None || stream == Some(id)
}

impl ResponseTracker {
    /// Nothing received yet.
    pub fn new(verbose: bool) -> (r: ResponseTracker)
        ensures
            r.stream_id is None,
            r.status_code == 0,
            r.bytes_received == 0,
            r.errors == ErrorStats::zero(),
            !r.response_done,
            !r.goaway,
            r.verbose == verbose,
            r.body@.len() == 0,
    {
        ResponseTracker {
            stream_id: None,
            status_code: 0,
            bytes_received: 0,
            errors: ErrorStats::new(),
            response_done: false,
            goaway: false,
            verbose,
            body: Vec::new(),
        }
    }

    /// Takes in an event of the connection and says what to do next.
    ///
    /// Headers and data adopt the first stream that reports them as the
    /// stream of the response and are read only on that stream; its end, or
    /// its reset (counted as an error), completes the response; GOAWAY
    /// completes it too and marks the connection; a poll error is counted;
    /// `Done`, a poll error, an end, a reset of the response stream and
    /// GOAWAY stop this round of polling.
    pub fn handle_event(&mut self, event: &H3Event) -> (r: PollStep)
        requires
            old(self).errors.stream_reset_errors < usize::MAX,
            old(self).errors.quic_errors < usize::MAX,
        ensures
            final(self).verbose == old(self).verbose,
            final(self).bytes_received == old(self).bytes_received,
            final(self).body == old(self).body,
            final(self).errors.send_errors == old(self).errors.send_errors,
            final(self).errors.recv_errors == old(self).errors.recv_errors,
            old(self).stream_id is Some ==> final(self).stream_id == old(self).stream_id,
            old(self).response_done ==> final(self).response_done,
            old(self).goaway ==> final(self).goaway,
            match *event {
                H3Event::Headers { stream_id, headers } => {
                    &&& r == PollStep::Poll
                    &&& final(self).stream_id == if old(self).stream_id is None {
                        Some(stream_id)
                    } else {
                        old(self).stream_id
                    }
                    &&& final(self).status_code == if adopts(old(self).stream_id, stream_id) {
                        status_after(old(self).status_code, headers@)
                    } else {
                        old(self).status_code
                    }
                    &&& final(self).errors == old(self).errors
                    &&& final(self).response_done == old(self).response_done
                    &&& final(self).goaway == old(self).goaway
                },
                H3Event::Data { stream_id } => {
                    &&& r == if adopts(old(self).stream_id, stream_id) {
                        PollStep::ReadBody { stream_id }
                    } else {
                        PollStep::Poll
                    }
                    &&& final(self).stream_id == if old(self).stream_id is None {
                        Some(stream_id)
                    } else {
                        old(self).stream_id
                    }
                    &&& final(self).status_code == old(self).status_code
                    &&& final(self).errors == old(self).errors
                    &&& final(self).response_done == old(self).response_done
                    &&& final(self).goaway == old(self).goaway
                },
                H3Event::Finished { stream_id } => {
                    let ours = old(self).stream_id == Some(stream_id);
                    &&& r == if ours {
                        PollStep::Stop
                    } else {
                        PollStep::Poll
                    }
                    &&& final(self).response_done == (old(self).response_done || ours)
                    &&& final(self).stream_id == old(self).stream_id
                    &&& final(self).status_code == old(self).status_code
                    &&& final(self).errors == old(self).errors
                    &&& final(self).goaway == old(self).goaway
                },
                H3Event::PriorityUpdate => {
                    &&& r == PollStep::Poll
                    &&& *final(self) == *old(self)
                },
                H3Event::GoAway => {
                    &&& r == PollStep::Stop
                    &&& final(self).response_done
                    &&& final(self).goaway
                    &&& final(self).stream_id == old(self).stream_id
                    &&& final(self).status_code == old(self).status_code
                    &&& final(self).errors == old(self).errors
                },
                H3Event::Reset { stream_id } => {
                    let ours = old(self).stream_id == Some(stream_id);
                    &&& r == if ours {
                        PollStep::Stop
                    } else {
                        PollStep::Poll
                    }
                    &&& final(self).response_done == (old(self).response_done || ours)
                    &&& final(self).errors.stream_reset_errors == old(self).errors.stream_reset_errors
                        + if ours {
                        1int
                    } else {
                        0int
                    }
                    &&& final(self).errors.quic_errors == old(self).errors.quic_errors
                    &&& final(self).stream_id == old(self).stream_id
                    &&& final(self).status_code == old(self).status_code
                    &&& final(self).goaway == old(self).goaway
                },
                H3Event::Done => {
                    &&& r == PollStep::Stop
                    &&& *final(self) == *old(self)
                },
                H3Event::Error => {
                    &&& r == PollStep::Stop
                    &&& final(self).errors.quic_errors == old(self).errors.quic_errors + 1
                    &&& final(self).errors.stream_reset_errors == old(self).errors.stream_reset_errors
                    &&& final(self).stream_id == old(self).stream_id
                    &&& final(self).status_code == old(self).status_code
                    &&& final(self).response_done == old(self).response_done
                    &&& final(self).goaway == old(self).goaway
                },
            },
    {
        match event {
            H3Event::Headers { stream_id, headers } => {
                let id = *stream_id;
                if self.stream_id.is_none() {
                    self.stream_id = Some(id);
                }
                if self.stream_id == Some(id) {
                    let mut i: usize = 0;
                    let ghost start = self.status_code;
                    let mut code = self.status_code;
                    assert(headers@.take(0) =~= Seq::<HeaderField>::empty());
                    while i < headers.len()
                        invariant
                            i <= headers@.len(),
                            code == status_after(start, headers@.take(i as int)),
                        decreases headers@.len() - i,
                    {
                        let h = &headers[i];
                        assert(headers@.take(i + 1).drop_last() =~= headers@.take(i as int));
                        assert(headers@.take(i + 1).last() == *h);
                        if is_status_name(&h.name) {
                            match status_from_value(&h.value) {
                                Some(c) => {
                                    code = c;
                                },
                                None => {},
                            }
                        }
                        i = i + 1;
                    }
                    assert(headers@.take(i as int) =~= headers@);
                    self.status_code = code;
                }
                PollStep::Poll
            },
            H3Event::Data { stream_id } => {
                let id = *stream_id;
                if self.stream_id.is_none() {
                    self.stream_id = Some(id);
                }
                if self.stream_id == Some(id) {
                    PollStep::ReadBody { stream_id: id }
                } else {
                    PollStep::Poll
                }
            },
            H3Event::Finished { stream_id } => {
                if self.stream_id == Some(*stream_id) {
                    self.response_done = true;
                    PollStep::Stop
                } else {
                    PollStep::Poll
                }
            },
            H3Event::PriorityUpdate => PollStep::Poll,
            H3Event::GoAway => {
                self.goaway = true;
                self.response_done = true;
                PollStep::Stop
            },
            H3Event::Reset { stream_id } => {
                if self.stream_id == Some(*stream_id) {
                    self.errors.stream_reset_errors = self.errors.stream_reset_errors + 1;
                    self.response_done = true;
                    PollStep::Stop
                } else {
                    PollStep::Poll
                }
            },
            H3Event::Done => PollStep::Stop,
            H3Event::Error => {
                self.errors.quic_errors = self.errors.quic_errors + 1;
                PollStep::Stop
            },
        }
    }

    /// Takes in a piece of body read from the response stream: its length
    /// is counted, and the bytes are kept when `verbose`.
    pub fn on_body(&mut self, chunk: &[u8])
        requires
            old(self).bytes_received + chunk@.len() <= usize::MAX,
        ensures
            final(self).bytes_received == old(self).bytes_received + chunk@.len(),
            final(self).body@ == if old(self).verbose {
                old(self).body@ + chunk@
            } else {
                old(self).body@
            },
            final(self).verbose == old(self).verbose,
            final(self).stream_id == old(self).stream_id,
            final(self).status_code == old(self).status_code,
            final(self).errors == old(self).errors,
            final(self).response_done == old(self).response_done,
            final(self).goaway == old(self).goaway,
    {
        self.bytes_received = self.bytes_received + chunk.len();
        if self.verbose {
            let mut body: Vec<u8> = Vec::new();
            std::mem::swap(&mut body, &mut self.body);
            let mut i: usize = 0;
            let ghost start = body@;
            while i < chunk.len()
                invariant
                    i <= chunk@.len(),
                    body@ == start + chunk@.take(i as int),
                decreases chunk@.len() - i,
            {
                body.push(chunk[i]);
                i = i + 1;
                assert(body@ =~= start + chunk@.take(i as int));
            }
            assert(chunk@.take(i as int) =~= chunk@);
            self.body = body;
        }
    }

    /// Counts a failure to read the body.
    pub fn on_body_error(&mut self)
        requires
            old(self).errors.quic_errors < usize::MAX,
        ensures
            final(self).errors.quic_errors == old(self).errors.quic_errors + 1,
            final(self).errors.send_errors == old(self).errors.send_errors,
            final(self).errors.recv_errors == old(self).errors.recv_errors,
            final(self).errors.stream_reset_errors == old(self).errors.stream_reset_errors,
            final(self).stream_id == old(self).stream_id,
            final(self).status_code == old(self).status_code,
            final(self).bytes_received == old(self).bytes_received,
            final(self).body == old(self).body,
            final(self).response_done == old(self).response_done,
            final(self).goaway == old(self).goaway,
            final(self).verbose == old(self).verbose,
    {
        self.errors.quic_errors = self.errors.quic_errors + 1;
    }

    /// Counts a failure to receive a packet.
    pub fn on_recv_error(&mut self)
        requires
            old(self).errors.recv_errors < usize::MAX,
        ensures
            final(self).errors.recv_errors == old(self).errors.recv_errors + 1,
            final(self).errors.send_errors == old(self).errors.send_errors,
            final(self).errors.quic_errors == old(self).errors.quic_errors,
            final(self).errors.stream_reset_errors == old(self).errors.stream_reset_errors,
            final(self).stream_id == old(self).stream_id,
            final(self).status_code == old(self).status_code,
            final(self).bytes_received == old(self).bytes_received,
            final(self).body == old(self).body,
            final(self).response_done == old(self).response_done,
            final(self).goaway == old(self).goaway,
            final(self).verbose == old(self).verbose,
    {
        self.errors.recv_errors = self.errors.recv_errors + 1;
    }

    /// Counts a failure to send a packet.
    pub fn on_send_error(&mut self)
        requires
            old(self).errors.send_errors < usize::MAX,
        ensures
            final(self).errors.send_errors == old(self).errors.send_errors + 1,
            final(self).errors.recv_errors == old(self).errors.recv_errors,
            final(self).errors.quic_errors == old(self).errors.quic_errors,
            final(self).errors.stream_reset_errors == old(self).errors.stream_reset_errors,
            final(self).stream_id == old(self).stream_id,
            final(self).status_code == old(self).status_code,
            final(self).bytes_received == old(self).bytes_received,
            final(self).body == old(self).body,
            final(self).response_done == old(self).response_done,
            final(self).goaway == old(self).goaway,
            final(self).verbose == old(self).verbose,
    {
        self.errors.send_errors = self.errors.send_errors + 1;
    }

    /// Should the client keep waiting for the response? Until it is done or
    /// the response timeout has passed.
    pub fn keep_waiting(&self, timed_out: bool) -> (r: bool)
        ensures
            r == (!self.response_done && !timed_out),
    {
        !self.response_done && !timed_out
    }

    /// The result of the request once the client stopped waiting: a
    /// timeout when the time ran out before the response was done, else the
    /// response as received (its body only when `verbose`).
    pub fn finish(self, timed_out: bool) -> (r: Result<ResponseOutcome, ResponseError>)
        ensures
            timed_out && !self.response_done ==> r == Err::<ResponseOutcome, ResponseError>(
                ResponseError::Timeout,
            ),
            !(timed_out && !self.response_done) ==> (r matches Ok(o) && o.status_code
                == self.status_code && o.bytes_received == self.bytes_received && o.errors
                == self.errors && (if self.verbose {
                o.body == Some(self.body)
            } else {
                o.body is None
            })),
    {
        if timed_out && !self.response_done {
            return Err(ResponseError::Timeout);
        }
        let body = if self.verbose {
            Some(self.body)
        } else {
            None
        };
        Ok(
            ResponseOutcome {
                status_code: self.status_code,
                bytes_received: self.bytes_received,
                errors: self.errors,
                body,
            },
        )
    }

    /// Should the pooled connection be marked failed after this request? When
    /// the peer sent GOAWAY, or the response timed out.
    pub fn connection_failed(&self, timed_out: bool) -> (r: bool)
        ensures
            r == (self.goaway || (timed_out && !self.response_done)),
    {
        self.goaway || (timed_out && !self.response_done)
    }
}

} // verus!
