use jsonlrpc::{ErrorCode, JsonRpcVersion, RequestId, RequestObject, ResponseObject};
use jsonlrpc_mio::connection::{ConnectProbe, Connection, ConnectionState, FlushStep, WriteOutcome};
use jsonlrpc_mio::server::LineStep;
use jsonlrpc_mio::{RpcClient, RpcServer};

/// Moves everything `from` has queued into `to`, as a socket would.
fn carry(from: &mut Connection<()>, to: &mut Connection<()>) {
    let mut step = from.begin_flush();
    while step == FlushStep::Write {
        let n = from.queued_bytes_len();
        to.receive(from.queued_bytes());
        step = from.on_write(WriteOutcome::Written(n));
    }
}

fn ping() -> RequestObject {
    RequestObject {
        jsonrpc: JsonRpcVersion::V2,
        method: "ping".to_owned(),
        params: None,
        id: Some(RequestId::Number(123)),
    }
}

#[test]
fn ping_pong_round_trip() {
    let mut server: RpcServer<(), RequestObject> = RpcServer::new(0, 99).unwrap();
    let mut client: RpcClient<(), ResponseObject> = RpcClient::new(100);

    client.open(());
    let mut cc = client.take_connection().unwrap();
    let frame = serde_json::to_vec(&ping()).unwrap();
    assert_eq!(cc.send(&frame), Ok(false));
    assert_eq!(cc.complete_connect(ConnectProbe::Established), ConnectionState::Connected);

    let token = server.accept(()).unwrap();
    assert_eq!(token, 1);
    let mut sc = server.take_connection(token).unwrap();
    carry(&mut cc, &mut sc);
    let line = sc.take_line().unwrap();
    let decoded = serde_json::from_slice::<RequestObject>(&line).map_err(|e| e.to_string());
    assert_eq!(server.on_line(&mut sc, &line, decoded), LineStep::Continue);
    assert!(server.restore_connection(sc));

    let (from, request) = server.try_recv().unwrap();
    assert_eq!(request, ping());
    assert_eq!(request.method, "ping");
    let response = ResponseObject::Ok {
        jsonrpc: JsonRpcVersion::V2,
        result: serde_json::Value::String("pong".to_owned()),
        id: request.id.unwrap(),
    };
    let mut sc = server.take_connection(from.token()).unwrap();
    assert_eq!(sc.send(&serde_json::to_vec(&response).unwrap()), Ok(true));
    carry(&mut sc, &mut cc);
    assert!(server.restore_connection(sc));

    let line = cc.take_line().unwrap();
    client.push_response(serde_json::from_slice(&line).unwrap());
    client.restore_connection(cc, false);
    let got = client.try_recv().unwrap();
    assert_eq!(got, response);
    assert_eq!(got.id(), Some(&RequestId::Number(123)));
}

#[test]
fn invalid_request_gets_error_and_closes() {
    let mut server: RpcServer<(), RequestObject> = RpcServer::new(0, 99).unwrap();
    let mut cc = Connection::new(100, (), ConnectionState::Connected);
    cc.send(b"\"ping\"").unwrap();

    let token = server.accept(()).unwrap();
    let mut sc = server.take_connection(token).unwrap();
    carry(&mut cc, &mut sc);
    let line = sc.take_line().unwrap();
    let decoded = serde_json::from_slice::<RequestObject>(&line).map_err(|e| e.to_string());
    assert_eq!(server.on_line(&mut sc, &line, decoded), LineStep::FlushThenClose);
    carry(&mut sc, &mut cc);
    assert!(sc.close());
    assert!(!server.restore_connection(sc));
    assert!(server.try_recv().is_none());
    assert_eq!(server.connection_count(), 0);

    let line = cc.take_line().unwrap();
    let response: ResponseObject = serde_json::from_slice(&line).unwrap();
    let ResponseObject::Err { error, id, .. } = response else {
        panic!("expected an error response");
    };
    assert_eq!(error.code, ErrorCode::INVALID_REQUEST);
    assert_eq!(id, None);
}

#[test]
fn reconnect_after_failed_send() {
    let mut client: RpcClient<(), ResponseObject> = RpcClient::new(100);
    client.open(());
    let mut cc = client.take_connection().unwrap();
    cc.complete_connect(ConnectProbe::Established);
    cc.send(b"[]").unwrap();
    assert_eq!(cc.begin_flush(), FlushStep::Write);
    assert_eq!(cc.on_write(WriteOutcome::Failed), FlushStep::Release);
    client.restore_connection(cc, true);
    assert!(!client.has_connection());
    assert!(client.try_recv().is_none());

    client.open(());
    let mut cc = client.take_connection().unwrap();
    assert_eq!(cc.send(b"[]"), Ok(false));
    client.restore_connection(cc, false);
    assert_eq!(client.queued_bytes_len(), 3);
}

#[test]
fn parse_error_from_raw_socket() {
    let mut server: RpcServer<(), RequestObject> = RpcServer::new(0, 99).unwrap();
    let token = server.accept(()).unwrap();
    let mut sc = server.take_connection(token).unwrap();
    sc.receive(b"not json\n");
    let line = sc.take_line().unwrap();
    let decoded = serde_json::from_slice::<RequestObject>(&line).map_err(|e| e.to_string());
    assert_eq!(server.on_line(&mut sc, &line, decoded), LineStep::FlushThenClose);
    let bytes = sc.queued_bytes().to_vec();
    let response: ResponseObject = serde_json::from_slice(&bytes[..bytes.len() - 1]).unwrap();
    let ResponseObject::Err { error, id, .. } = response else {
        panic!("expected an error response");
    };
    assert_eq!(error.code, ErrorCode::PARSE_ERROR);
    assert_eq!(id, None);
    assert!(sc.close());
    assert!(!server.restore_connection(sc));
    assert!(server.try_recv().is_none());
}

#[test]
fn invalid_params_reply_keeps_request_id() {
    let mut server: RpcServer<(), Vec<i64>> = RpcServer::new(0, 99).unwrap();
    let token = server.accept(()).unwrap();
    let mut sc = server.take_connection(token).unwrap();
    sc.receive(br#"{"jsonrpc":"2.0","method":"add","params":["a"],"id":7}"#);
    sc.receive(b"\n");
    let line = sc.take_line().unwrap();
    let decoded = serde_json::from_slice::<Vec<i64>>(&line).map_err(|e| e.to_string());
    assert_eq!(server.on_line(&mut sc, &line, decoded), LineStep::FlushThenClose);
    let bytes = sc.queued_bytes().to_vec();
    let response: ResponseObject = serde_json::from_slice(&bytes[..bytes.len() - 1]).unwrap();
    let ResponseObject::Err { error, id, .. } = response else {
        panic!("expected an error response");
    };
    assert_eq!(error.code, ErrorCode::INVALID_PARAMS);
    assert_eq!(id, Some(RequestId::Number(7)));
    assert!(server.try_recv().is_none());
}
