//! Request planning, target parsing, response tracking and result
//! accounting for an HTTP/3 load tester.
pub mod constants;
pub mod numeric;
pub mod text;
pub mod target;
pub mod status;
pub mod pool;
pub mod workload;
pub mod summary;
pub mod handshake;
pub mod response;
