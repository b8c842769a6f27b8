//! Setting up a connection: the transport settings of the client, a fresh
//! connection ID, and what the handshake loop does next.
use rand::rngs::ThreadRng;
use rand::RngCore;
use vstd::prelude::*;

use crate::constants::quic::{
    INITIAL_MAX_DATA,
    INITIAL_MAX_STREAM_DATA_BIDI,
    INITIAL_MAX_STREAM_DATA_UNI,
    MAX_CONN_ID_LEN,
    MAX_IDLE_TIMEOUT_MS,
    MAX_RECV_UDP_PAYLOAD_SIZE,
    MAX_SEND_UDP_PAYLOAD_SIZE,
    MAX_STREAMS_BIDI,
    MAX_STREAMS_UNI,
};

verus! {

/// The transport settings that a client connection is configured with.
#[derive(Debug, Clone, Copy, PartialEq, Eq, Structural)]
pub struct QuicSettings {
    pub max_idle_timeout_ms: u64,
    pub max_recv_udp_payload_size: usize,
    pub max_send_udp_payload_size: usize,
    pub initial_max_data: u64,
    pub initial_max_stream_data_bidi_local: u64,
    pub initial_max_stream_data_bidi_remote: u64,
    pub initial_max_stream_data_uni: u64,
    pub initial_max_streams_bidi: u64,
    pub initial_max_streams_uni: u64,
    pub early_data: bool,
    pub verify_peer: bool,
}

impl QuicSettings {
    /// The settings of the load-testing client: the tuning constants, early
    /// data on, and the peer's certificate checked unless `insecure`.
    pub fn for_client(insecure: bool) -> (r: QuicSettings)
        ensures
            r.max_idle_timeout_ms == MAX_IDLE_TIMEOUT_MS,
            r.max_recv_udp_payload_size == MAX_RECV_UDP_PAYLOAD_SIZE,
            r.max_send_udp_payload_size == MAX_SEND_UDP_PAYLOAD_SIZE,
            r.initial_max_data == INITIAL_MAX_DATA,
            r.initial_max_stream_data_bidi_local == INITIAL_MAX_STREAM_DATA_BIDI,
            r.initial_max_stream_data_bidi_remote == INITIAL_MAX_STREAM_DATA_BIDI,
            r.initial_max_stream_data_uni == INITIAL_MAX_STREAM_DATA_UNI,
            r.initial_max_streams_bidi == MAX_STREAMS_BIDI,
            r.initial_max_streams_uni == MAX_STREAMS_UNI,
            r.early_data,
            r.verify_peer == !insecure,
    {
        QuicSettings {
            max_idle_timeout_ms: MAX_IDLE_TIMEOUT_MS,
            max_recv_udp_payload_size: MAX_RECV_UDP_PAYLOAD_SIZE,
            max_send_udp_payload_size: MAX_SEND_UDP_PAYLOAD_SIZE,
            initial_max_data: INITIAL_MAX_DATA,
            initial_max_stream_data_bidi_local: INITIAL_MAX_STREAM_DATA_BIDI,
            initial_max_stream_data_bidi_remote: INITIAL_MAX_STREAM_DATA_BIDI,
            initial_max_stream_data_uni: INITIAL_MAX_STREAM_DATA_UNI,
            initial_max_streams_bidi: MAX_STREAMS_BIDI,
            initial_max_streams_uni: MAX_STREAMS_UNI,
            early_data: true,
            verify_peer: !insecure,
        }
    }
}

#[verifier::external_type_specification]
#[verifier::external_body]
pub struct ExThreadRng(ThreadRng);

/// `rand::thread_rng`: a handle to the random generator of this thread.
/// Nothing is promised of it; it panics only when the operating system
/// cannot seed the generator, which no argument controls.
#[verifier::external_body]
fn thread_rng() -> ThreadRng {
    rand::thread_rng()
}

/// `RngCore::fill_bytes` of the thread's generator: every byte of `dest` is
/// overwritten with a random byte. The length of `dest` stays; what the
/// bytes are is chance.
#[verifier::external_body]
fn fill_bytes(rng: &mut ThreadRng, dest: &mut Vec<u8>)
    ensures
        final(dest)@.len() == old(dest)@.len(),
{
    rng.fill_bytes(dest.as_mut_slice())
}

/// A fresh random source connection ID of the longest length QUIC allows.
pub fn new_connection_id() -> (r: Vec<u8>)
    ensures
        r@.len() == MAX_CONN_ID_LEN,
{
    let mut id: Vec<u8> = Vec::new();
    let mut i: usize = 0;
    while i < MAX_CONN_ID_LEN
        invariant
            i <= MAX_CONN_ID_LEN,
            id@.len() == i,
        decreases MAX_CONN_ID_LEN - i,
    {
        id.push(0);
        i = i + 1;
    }
    let mut rng = thread_rng();
    fill_bytes(&mut rng, &mut id);
    id
}

/// What the handshake loop does next.
#[derive(Debug, Clone, Copy, PartialEq, Eq, Structural)]
pub enum HandshakeStep {
    /// The handshake deadline passed: give up.
    TimedOut,
    /// QUIC is established and HTTP/3 runs on it: the connection is ready.
    Ready,
    /// Send pending packets, set up HTTP/3 once QUIC is established, and
    /// wait for packets.
    Continue,
}

/// The decision at the top of each round of the handshake loop: the
/// deadline is checked first, then whether both QUIC and HTTP/3 are up.
pub fn handshake_step(deadline_passed: bool, quic_established: bool, has_h3: bool) -> (r:
    HandshakeStep)
    ensures
        deadline_passed ==> r == HandshakeStep::TimedOut,
        !deadline_passed && quic_established && has_h3 ==> r == HandshakeStep::Ready,
        !deadline_passed && !(quic_established && has_h3) ==> r == HandshakeStep::Continue,
{
    if deadline_passed {
        HandshakeStep::TimedOut
    } else if quic_established && has_h3 {
        HandshakeStep::Ready
    } else {
        HandshakeStep::Continue
    }
}

/// Should HTTP/3 be set up now? Once QUIC is established, and only once.
pub fn needs_h3_setup(quic_established: bool, has_h3: bool) -> (r: bool)
    ensures
        r == (quic_established && !has_h3),
{
    quic_established && !has_h3
}

} // verus!
