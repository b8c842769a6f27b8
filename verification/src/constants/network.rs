//! Buffers and timeouts of the network loop.
use vstd::prelude::*;

verus! {

/// Size of the buffers for UDP packets, in bytes.
pub const BUFFER_SIZE: usize = 65_535;

/// Time allowed for the handshake, in seconds.
pub const HANDSHAKE_TIMEOUT_SECS: u64 = 5;

/// Time allowed for a response, in seconds.
pub const RESPONSE_TIMEOUT_SECS: u64 = 5;

/// Wait for a packet during the handshake when QUIC names no timeout, in
/// milliseconds.
pub const HANDSHAKE_POLL_TIMEOUT_MS: u64 = 50;

/// Wait for a packet while awaiting a response when QUIC names no timeout,
/// in milliseconds.
pub const RESPONSE_POLL_TIMEOUT_MS: u64 = 100;

} // verus!
