use jsonlrpc_mio::connection::{ConnectProbe, ConnectionState};
use jsonlrpc_mio::{PeerId, RpcClient};

type Client = RpcClient<(), u32>;

#[test]
fn new_client_has_nothing() {
    let mut c = Client::new(100);
    assert_eq!(c.token(), 100);
    assert!(!c.has_connection());
    assert_eq!(c.queued_bytes_len(), 0);
    assert!(c.try_recv().is_none());
    assert!(c.close().is_none());
}

#[test]
fn open_starts_a_connecting_session() {
    let mut c = Client::new(100);
    c.open(());
    let conn = c.connection().unwrap();
    assert_eq!(conn.token(), 100);
    assert_eq!(conn.state(), ConnectionState::Connecting);
    assert!(conn.write_interest());
}

#[test]
fn new_session_drops_old_responses() {
    let mut c = Client::new(1);
    c.open(());
    c.push_response(5);
    c.push_response(6);
    let conn = c.take_connection().unwrap();
    c.restore_connection(conn, true);
    assert!(!c.has_connection());
    c.open(());
    assert!(c.try_recv().is_none());
}

#[test]
fn responses_come_out_in_order() {
    let mut c = Client::new(1);
    c.push_response(1);
    c.push_response(2);
    assert_eq!(c.try_recv(), Some(1));
    assert_eq!(c.try_recv(), Some(2));
    assert_eq!(c.try_recv(), None);
}

#[test]
fn decode_failure_keeps_the_connection() {
    let mut c = Client::new(1);
    c.open(());
    let conn = c.take_connection().unwrap();
    assert!(!c.has_connection());
    c.restore_connection(conn, false);
    assert!(c.has_connection());
}

#[test]
fn queued_bytes_pass_through() {
    let mut c = Client::new(1);
    c.open(());
    let mut conn = c.take_connection().unwrap();
    conn.send(b"[1]").unwrap();
    c.restore_connection(conn, false);
    assert_eq!(c.queued_bytes_len(), 4);
}

#[test]
fn client_close_is_idempotent() {
    let mut c = Client::new(1);
    c.open(());
    let released = c.close().unwrap();
    assert_eq!(released.state(), ConnectionState::Closed);
    assert!(c.close().is_none());
    assert!(!c.has_connection());
}

#[test]
fn close_of_failed_session_releases_nothing_more() {
    let mut c = Client::new(1);
    c.open(());
    let mut conn = c.take_connection().unwrap();
    assert_eq!(conn.complete_connect(ConnectProbe::Failed), ConnectionState::Closed);
    c.restore_connection(conn, false);
    assert!(c.close().is_none());
}

#[test]
fn peer_ids_compare_by_value() {
    assert_eq!(PeerId(4), PeerId(4));
    assert!(PeerId(3) < PeerId(4));
}
