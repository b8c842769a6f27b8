use vex::constants::quic::MAX_CONN_ID_LEN;
use vex::handshake::{handshake_step, needs_h3_setup, new_connection_id, HandshakeStep, QuicSettings};
use vex::pool::{ConnectionPoolState, PoolError};
use vex::response::{request_headers, H3Event, HeaderField, PollStep, ResponseError, ResponseTracker};

type Pool = ConnectionPoolState<u8, u16, u32, u64>;

#[test]
fn pool_starts_empty_and_numbers_streams_by_four() {
    let mut pool = Pool::default();
    assert!(!pool.is_usable());
    assert_eq!(pool.next_stream_id, 0);
    let ids: Vec<u64> = (0..4).map(|_| pool.allocate_stream_id()).collect();
    assert_eq!(ids, vec![0, 4, 8, 12]);
    assert_eq!(pool.next_stream_id, 16);
    assert_eq!(pool.reuse_count, 4);
}

#[test]
fn pool_usability() {
    let mut pool = Pool::default();
    assert_eq!(pool.begin_request(), Err(PoolError::ConnectionLost));
    assert_eq!(pool.reuse_count, 0);
    pool.install(1, Some(2), 3, 4, 5);
    assert!(pool.is_usable());
    assert_eq!(pool.begin_request(), Ok(()));
    assert_eq!(pool.reuse_count, 1);
    pool.mark_failed();
    assert!(!pool.is_usable());
    assert_eq!(pool.begin_request(), Ok(()));
    pool.install(6, None, 7, 8, 9);
    assert!(!pool.failed);
    assert!(!pool.is_usable());
    assert_eq!(pool.begin_request(), Err(PoolError::ConnectionLost));
    assert_eq!(pool.peer_addr, Some(9));
}

#[test]
fn client_settings() {
    let s = QuicSettings::for_client(false);
    assert_eq!(s.max_idle_timeout_ms, 5_000);
    assert_eq!(s.max_recv_udp_payload_size, 65_527);
    assert_eq!(s.max_send_udp_payload_size, 65_527);
    assert_eq!(s.initial_max_data, 10_000_000);
    assert_eq!(s.initial_max_stream_data_bidi_local, 1_000_000);
    assert_eq!(s.initial_max_stream_data_bidi_remote, 1_000_000);
    assert_eq!(s.initial_max_stream_data_uni, 1_000_000);
    assert_eq!(s.initial_max_streams_bidi, 100);
    assert_eq!(s.initial_max_streams_uni, 100);
    assert!(s.early_data);
    assert!(s.verify_peer);
    assert!(!QuicSettings::for_client(true).verify_peer);
}

#[test]
fn connection_ids_are_random() {
    let a = new_connection_id();
    let b = new_connection_id();
    assert_eq!(a.len(), MAX_CONN_ID_LEN);
    assert_eq!(b.len(), MAX_CONN_ID_LEN);
    assert!(a.iter().any(|&x| x != 0));
    assert_ne!(a, b);
}

#[test]
fn handshake_decisions() {
    assert_eq!(handshake_step(true, true, true), HandshakeStep::TimedOut);
    assert_eq!(handshake_step(false, true, true), HandshakeStep::Ready);
    assert_eq!(handshake_step(false, true, false), HandshakeStep::Continue);
    assert_eq!(handshake_step(false, false, false), HandshakeStep::Continue);
    assert!(needs_h3_setup(true, false));
    assert!(!needs_h3_setup(true, true));
    assert!(!needs_h3_setup(false, false));
}

fn header(name: &str, value: &[u8]) -> HeaderField {
    HeaderField { name: name.as_bytes().to_vec(), value: value.to_vec() }
}

#[test]
fn request_header_fields() {
    let h = request_headers("example.com", "/api");
    let pairs: Vec<(Vec<u8>, Vec<u8>)> = h.into_iter().map(|f| (f.name, f.value)).collect();
    assert_eq!(
        pairs,
        vec![
            (b":method".to_vec(), b"GET".to_vec()),
            (b":scheme".to_vec(), b"https".to_vec()),
            (b":authority".to_vec(), b"example.com".to_vec()),
            (b":path".to_vec(), b"/api".to_vec()),
            (b"user-agent".to_vec(), b"vex-h3-client".to_vec()),
        ]
    );
}

#[test]
fn response_status_from_headers() {
    let mut t = ResponseTracker::new(false);
    let ev = H3Event::Headers {
        stream_id: 0,
        headers: vec![header(":status", b"200"), header("content-type", b"text/plain")],
    };
    assert_eq!(t.handle_event(&ev), PollStep::Poll);
    assert_eq!(t.stream_id, Some(0));
    assert_eq!(t.status_code, 200);
    // Headers of another stream are not read.
    let other = H3Event::Headers { stream_id: 4, headers: vec![header(":status", b"500")] };
    assert_eq!(t.handle_event(&other), PollStep::Poll);
    assert_eq!(t.status_code, 200);
    // A value that is no number leaves the code; a later one sets it.
    let ev = H3Event::Headers {
        stream_id: 0,
        headers: vec![header(":status", b"ok"), header(":status", b"\xff2"), header(":status", b"204")],
    };
    t.handle_event(&ev);
    assert_eq!(t.status_code, 204);
    let ev = H3Event::Headers { stream_id: 0, headers: vec![header(":Status", b"500")] };
    t.handle_event(&ev);
    assert_eq!(t.status_code, 204);
}

#[test]
fn response_body_and_end() {
    let mut t = ResponseTracker::new(true);
    assert_eq!(t.handle_event(&H3Event::Data { stream_id: 8 }), PollStep::ReadBody { stream_id: 8 });
    t.on_body(b"hello ");
    t.on_body(b"world");
    assert_eq!(t.handle_event(&H3Event::Data { stream_id: 4 }), PollStep::Poll);
    assert_eq!(t.handle_event(&H3Event::PriorityUpdate), PollStep::Poll);
    assert_eq!(t.handle_event(&H3Event::Finished { stream_id: 4 }), PollStep::Poll);
    assert!(t.keep_waiting(false));
    assert_eq!(t.handle_event(&H3Event::Finished { stream_id: 8 }), PollStep::Stop);
    assert!(!t.keep_waiting(false));
    assert!(!t.connection_failed(true));
    let out = t.finish(true).ok().unwrap();
    assert_eq!(out.bytes_received, 11);
    assert_eq!(out.body, Some(b"hello world".to_vec()));
    assert_eq!(out.status_code, 0);
}

#[test]
fn response_errors_and_endings() {
    let mut t = ResponseTracker::new(false);
    t.handle_event(&H3Event::Headers { stream_id: 0, headers: vec![header(":status", b"200")] });
    t.on_body(b"abc");
    t.on_body_error();
    t.on_recv_error();
    t.on_send_error();
    t.on_send_error();
    assert_eq!(t.handle_event(&H3Event::Error), PollStep::Stop);
    assert_eq!(t.handle_event(&H3Event::Done), PollStep::Stop);
    assert_eq!(t.handle_event(&H3Event::Reset { stream_id: 4 }), PollStep::Poll);
    assert!(!t.response_done);
    assert_eq!(t.handle_event(&H3Event::Reset { stream_id: 0 }), PollStep::Stop);
    assert!(t.response_done);
    let out = t.finish(false).ok().unwrap();
    assert_eq!(out.errors.quic_errors, 2);
    assert_eq!(out.errors.recv_errors, 1);
    assert_eq!(out.errors.send_errors, 2);
    assert_eq!(out.errors.stream_reset_errors, 1);
    assert_eq!(out.bytes_received, 3);
    assert_eq!(out.body, None);
    assert_eq!(out.status_code, 200);
}

#[test]
fn response_goaway_and_timeout() {
    let mut t = ResponseTracker::new(false);
    assert_eq!(t.handle_event(&H3Event::GoAway), PollStep::Stop);
    assert!(t.response_done && t.goaway);
    assert!(t.connection_failed(false));
    assert!(t.finish(true).is_ok());

    let t = ResponseTracker::new(false);
    assert!(t.connection_failed(true));
    assert!(!t.connection_failed(false));
    assert!(matches!(t.finish(true), Err(ResponseError::Timeout)));
}
