//! QUIC transport parameters of the client.
use vstd::prelude::*;

verus! {

/// Maximum idle timeout of a QUIC connection, in milliseconds.
pub const MAX_IDLE_TIMEOUT_MS: u64 = 5_000;

/// Largest UDP payload sent, in bytes.
pub const MAX_SEND_UDP_PAYLOAD_SIZE: usize = 65_527;

/// Largest UDP payload received, in bytes.
pub const MAX_RECV_UDP_PAYLOAD_SIZE: usize = 65_527;

/// Data the peer may send on the whole connection at first, in bytes.
pub const INITIAL_MAX_DATA: u64 = 10_000_000;

/// Data the peer may send on a bidirectional stream at first, in bytes.
pub const INITIAL_MAX_STREAM_DATA_BIDI: u64 = 1_000_000;

/// Data the peer may send on a unidirectional stream at first, in bytes.
pub const INITIAL_MAX_STREAM_DATA_UNI: u64 = 1_000_000;

/// Bidirectional streams the peer may open.
pub const MAX_STREAMS_BIDI: u64 = 100;

/// Unidirectional streams the peer may open.
pub const MAX_STREAMS_UNI: u64 = 100;

/// Length of a connection ID, in bytes (the longest that QUIC allows).
pub const MAX_CONN_ID_LEN: usize = 20;

} // verus!
