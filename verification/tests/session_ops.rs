use std::sync::Arc;

use arti_bridge::errors::BridgeError;
use arti_bridge::ident::format_u64;
use arti_bridge::session::Session;

type TestSession = Session<u8, u32, Vec<u8>, Vec<u8>>;

fn ready_session() -> TestSession {
    let mut s: TestSession = Session::new();
    s.install_client(Arc::new(7u32));
    s
}

#[test]
fn fresh_session_is_disconnected() {
    let s: TestSession = Session::new();
    assert!(!s.is_connected());
    assert_eq!(s.bootstrap_tor(), Err(BridgeError::NotInitialized));
}

#[test]
fn install_client_connects() {
    let s = ready_session();
    assert!(s.is_connected());
    assert_eq!(s.bootstrap_tor(), Ok(()));
}

#[test]
fn create_circuit_without_client_fails() {
    let mut s: TestSession = Session::new();
    assert_eq!(
        s.create_circuit(String::from("c")),
        Err(BridgeError::NotInitialized)
    );
}

#[test]
fn create_and_destroy_circuit() {
    let mut s = ready_session();
    assert_eq!(s.create_circuit(String::from("c")), Ok(()));
    assert_eq!(s.destroy_circuit(String::from("c")), Ok(()));
    assert_eq!(
        s.destroy_circuit(String::from("c")),
        Err(BridgeError::NotFound)
    );
}

#[test]
fn circuit_keeps_client_snapshot() {
    let mut s: TestSession = Session::new();
    s.install_client(Arc::new(1u32));
    assert_eq!(s.create_circuit(String::from("a")), Ok(()));
    s.install_client(Arc::new(2u32));
    let snapshot = s.get_tor_client_by_circuit(&String::from("a")).unwrap();
    assert_eq!(*snapshot, 1u32);
    assert_eq!(s.create_circuit(String::from("b")), Ok(()));
    let fresh = s.get_tor_client_by_circuit(&String::from("b")).unwrap();
    assert_eq!(*fresh, 2u32);
}

#[test]
fn disconnect_clears_circuits_and_client() {
    let mut s = ready_session();
    assert_eq!(s.create_circuit(String::from("A")), Ok(()));
    assert_eq!(s.create_circuit(String::from("B")), Ok(()));
    assert_eq!(s.shutdown_tor(), Ok(()));
    assert!(!s.is_connected());
    assert!(s.get_tor_client_by_circuit(&String::from("A")).is_none());
    assert!(s.get_tor_client_by_circuit(&String::from("B")).is_none());
    assert_eq!(
        s.create_circuit(String::from("C")),
        Err(BridgeError::NotInitialized)
    );
}

#[test]
fn disconnect_is_idempotent() {
    let mut s = ready_session();
    assert_eq!(s.shutdown_tor(), Ok(()));
    assert_eq!(s.shutdown_tor(), Ok(()));
    assert!(!s.is_connected());
}

#[test]
fn runtime_slot_install_and_reuse() {
    let mut s: TestSession = Session::new();
    assert!(s.runtime_ref().is_none());
    s.install_runtime(9u8);
    assert_eq!(s.runtime_ref(), Some(&9u8));
}

#[test]
fn connect_stream_generates_expected_identifier() {
    let mut s = ready_session();
    s.create_circuit(String::from("abc")).unwrap();
    let (id, client) = s
        .connect_stream_request(&String::from("abc"), 443, 64, 1234)
        .unwrap();
    assert_eq!(id, "abc-stream-1234");
    assert_eq!(*client, 7u32);
}

#[test]
fn connect_stream_rejects_bad_port() {
    let mut s = ready_session();
    s.create_circuit(String::from("c")).unwrap();
    assert_eq!(
        s.connect_stream_request(&String::from("c"), 0, 64, 1),
        Err(BridgeError::InvalidParams)
    );
    assert_eq!(
        s.connect_stream_request(&String::from("c"), -5, 64, 1),
        Err(BridgeError::InvalidParams)
    );
}

#[test]
fn connect_stream_unknown_circuit() {
    let s = ready_session();
    assert_eq!(
        s.connect_stream_request(&String::from("nope"), 443, 64, 1),
        Err(BridgeError::NotFound)
    );
}

#[test]
fn connect_stream_buffer_too_small_inserts_nothing() {
    let mut s = ready_session();
    s.create_circuit(String::from("c")).unwrap();
    // "c-stream-99" is 11 bytes; with the terminator it needs 12.
    assert_eq!(
        s.connect_stream_request(&String::from("c"), 443, 11, 99),
        Err(BridgeError::BufferTooSmall)
    );
    assert!(!s.has_stream(&String::from("c-stream-99")));
    let ok = s.connect_stream_request(&String::from("c"), 443, 12, 99);
    assert_eq!(ok.unwrap().0, "c-stream-99");
}

#[test]
fn buffer_check_precedes_circuit_lookup() {
    let s = ready_session();
    // No circuit named "c" exists, but the tiny buffer fails first.
    assert_eq!(
        s.connect_stream_request(&String::from("c"), 443, 4, 99),
        Err(BridgeError::BufferTooSmall)
    );
}

#[test]
fn stream_identifiers_distinct_across_milliseconds() {
    let mut s = ready_session();
    s.create_circuit(String::from("c")).unwrap();
    let (id1, _) = s
        .connect_stream_request(&String::from("c"), 443, 64, 1)
        .unwrap();
    let (id2, _) = s
        .connect_stream_request(&String::from("c"), 443, 64, 2)
        .unwrap();
    assert_ne!(id1, id2);
}

#[test]
fn stream_identifiers_collide_within_one_millisecond() {
    let mut s = ready_session();
    s.create_circuit(String::from("c")).unwrap();
    let (id1, _) = s
        .connect_stream_request(&String::from("c"), 443, 64, 5)
        .unwrap();
    let (id2, _) = s
        .connect_stream_request(&String::from("c"), 443, 64, 5)
        .unwrap();
    // Two connects in the same millisecond collide, detectably.
    assert_eq!(id1, id2);
}

#[test]
fn open_then_close_leaves_registry_without_identifier() {
    let mut s = ready_session();
    s.create_circuit(String::from("c")).unwrap();
    let (id, _) = s
        .connect_stream_request(&String::from("c"), 443, 64, 77)
        .unwrap();
    s.store_stream(id.clone(), Vec::new());
    assert!(s.has_stream(&id));
    assert_eq!(s.close_stream(&id), Ok(()));
    assert!(!s.has_stream(&id));
    assert_eq!(s.close_stream(&id), Err(BridgeError::NotFound));
}

#[test]
fn loopback_stream_round_trip() {
    let mut s = ready_session();
    let id = String::from("loop");
    s.store_stream(id.clone(), Vec::new());

    // Write: withdraw the stream, append the bytes, hand it back.
    let mut stream = s.take_stream(&id).unwrap();
    stream.extend_from_slice(b"hello bridge");
    s.store_stream(id.clone(), stream);

    // Read: withdraw again and drain what was written.
    let mut stream = s.take_stream(&id).unwrap();
    let read: Vec<u8> = stream.drain(..).collect();
    assert_eq!(read, b"hello bridge");
    s.store_stream(id.clone(), stream);
    assert!(s.has_stream(&id));
}

#[test]
fn take_stream_unknown_identifier() {
    let mut s = ready_session();
    assert_eq!(
        s.take_stream(&String::from("missing")),
        Err(BridgeError::NotFound)
    );
}

#[test]
fn store_stream_overwrites_entry() {
    let mut s = ready_session();
    let id = String::from("x");
    s.store_stream(id.clone(), vec![1u8]);
    s.store_stream(id.clone(), vec![2u8]);
    assert_eq!(s.take_stream(&id), Ok(vec![2u8]));
}

#[test]
fn tls_stream_scoped_to_creating_thread() {
    let mut s = ready_session();
    let id = String::from("tls");
    let creator: u64 = 1;
    let other: u64 = 2;
    s.store_tls_stream(id.clone(), creator, vec![42u8]);
    assert!(s.has_tls_stream(&id, creator));
    // The entry exists in the process, yet another thread's lookup fails.
    assert!(!s.has_tls_stream(&id, other));
    assert_eq!(s.take_tls_stream(&id, other), Err(BridgeError::NotFound));
    assert_eq!(s.take_tls_stream(&id, creator), Ok(vec![42u8]));
}

#[test]
fn tls_close_respects_thread_scope() {
    let mut s = ready_session();
    let id = String::from("tls");
    s.store_tls_stream(id.clone(), 1, vec![1u8]);
    assert_eq!(s.close_tls_stream(&id, 2), Err(BridgeError::NotFound));
    assert!(s.has_tls_stream(&id, 1));
    assert_eq!(s.close_tls_stream(&id, 1), Ok(()));
    assert!(!s.has_tls_stream(&id, 1));
    assert_eq!(s.close_tls_stream(&id, 1), Err(BridgeError::NotFound));
}

#[test]
fn tls_connect_validates_port_range() {
    let mut s = ready_session();
    s.create_circuit(String::from("c")).unwrap();
    assert_eq!(
        s.connect_tls_request(&String::from("c"), 0),
        Err(BridgeError::InvalidParams)
    );
    assert_eq!(
        s.connect_tls_request(&String::from("c"), 65536),
        Err(BridgeError::InvalidParams)
    );
    assert_eq!(
        s.connect_tls_request(&String::from("missing"), 443),
        Err(BridgeError::NotFound)
    );
    let client = s.connect_tls_request(&String::from("c"), 443).unwrap();
    assert_eq!(*client, 7u32);
}

#[test]
fn format_u64_renders_decimal() {
    assert_eq!(format_u64(0), "0");
    assert_eq!(format_u64(10), "10");
    assert_eq!(format_u64(909), "909");
    assert_eq!(format_u64(u64::MAX), "18446744073709551615");
}
