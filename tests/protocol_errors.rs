use jsonlrpc_mio::connection::{Connection, ConnectionState};
use jsonlrpc_mio::protocol::{
    classify_malformed, error_reply_for, reject_malformed, ErrorReply, ProtocolFault, RequestId,
};

#[test]
fn quoted_string_is_an_invalid_request() {
    let r = classify_malformed(b"\"ping\"");
    assert_eq!(r, ErrorReply { fault: ProtocolFault::InvalidRequest, id: None });
}

#[test]
fn request_object_keeps_its_id() {
    let line = br#"{"jsonrpc":"2.0","method":"add","params":[1,2],"id":123}"#;
    let r = classify_malformed(line);
    assert_eq!(
        r,
        ErrorReply { fault: ProtocolFault::InvalidParams, id: Some(RequestId::Number(123)) }
    );
    let line = br#"{"jsonrpc":"2.0","method":"add","id":"abc"}"#;
    let r = classify_malformed(line);
    assert_eq!(r.id, Some(RequestId::String("abc".to_owned())));
}

#[test]
fn not_json_is_a_parse_error() {
    let r = classify_malformed(b"not json");
    assert_eq!(r, ErrorReply { fault: ProtocolFault::ParseError, id: None });
}

#[test]
fn reply_from_decode_results() {
    assert_eq!(error_reply_for(None, false).fault, ProtocolFault::ParseError);
    assert_eq!(error_reply_for(None, true).fault, ProtocolFault::InvalidRequest);
    let r = error_reply_for(Some(None), true);
    assert_eq!(r, ErrorReply { fault: ProtocolFault::InvalidParams, id: None });
    let r = error_reply_for(Some(Some(RequestId::Number(-4))), false);
    assert_eq!(r.id, Some(RequestId::Number(-4)));
}

fn queued_json(c: &Connection<()>) -> serde_json::Value {
    let bytes = c.queued_bytes();
    assert_eq!(bytes.last(), Some(&b'\n'));
    serde_json::from_slice(&bytes[..bytes.len() - 1]).unwrap()
}

#[test]
fn rejection_queues_the_error_response() {
    let mut c = Connection::new(1, (), ConnectionState::Connected);
    assert!(reject_malformed(&mut c, b"not json", "bad line"));
    let v = queued_json(&c);
    assert_eq!(v["jsonrpc"], "2.0");
    assert_eq!(v["error"]["code"], -32700);
    assert_eq!(v["error"]["message"], "bad line");
    assert!(v["id"].is_null());
}

#[test]
fn rejection_of_invalid_params_carries_id() {
    let mut c = Connection::new(1, (), ConnectionState::Connected);
    let line = br#"{"jsonrpc":"2.0","method":"m","params":{},"id":9}"#;
    assert!(reject_malformed(&mut c, line, "wrong params"));
    let v = queued_json(&c);
    assert_eq!(v["error"]["code"], -32602);
    assert_eq!(v["id"], 9);
}

#[test]
fn rejection_of_non_request_json() {
    let mut c = Connection::new(1, (), ConnectionState::Connected);
    assert!(reject_malformed(&mut c, b"\"ping\"", "not a request"));
    let v = queued_json(&c);
    assert_eq!(v["error"]["code"], -32600);
}

#[test]
fn rejection_on_closed_connection_queues_nothing() {
    let mut c = Connection::new(1, (), ConnectionState::Connected);
    c.close();
    assert!(!reject_malformed(&mut c, b"not json", "x"));
    assert_eq!(c.queued_bytes_len(), 0);
}
