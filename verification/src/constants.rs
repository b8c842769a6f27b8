//! Tuning values for QUIC, the network and its timeouts, kept in one place.
pub mod network;
pub mod quic;
