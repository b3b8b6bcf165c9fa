//! The server's answer to a line that does not decode as a request: which
//! JSON-RPC error it gets, with which id, and the bytes that carry it.
use vstd::prelude::*;

use crate::connection::{Connection, ConnectionState, NEWLINE};

verus! {

/// A JSON-RPC request id.
#[derive(Debug, Clone, PartialEq, Eq, Hash)]
pub enum RequestId {
    Number(i64),
    String(String),
}

/// Why a line was refused.
#[derive(Debug, Clone, Copy, PartialEq, Eq, Structural)]
pub enum ProtocolFault {
    /// The line is not JSON.
    ParseError,
    /// The line is JSON but not a request object.
    InvalidRequest,
    /// The line is a request object whose parameters do not decode.
    InvalidParams,
}

/// The error response owed for a refused line.
#[derive(Debug, Clone, PartialEq, Eq)]
pub struct ErrorReply {
    pub fault: ProtocolFault,
    /// The refused request's id, when it could be recovered.
    pub id: Option<RequestId>,
}

/// What `serde_json::from_slice::<jsonlrpc::RequestObject>` makes of a
/// line: the request's id (itself absent for a notification) when the line
/// is a request object, nothing when it is not.
pub uninterp spec fn request_object_id(line: Seq<u8>) -> Option<Option<RequestId>>;

/// Whether `serde_json::from_slice::<serde_json::Value>` accepts a line.
pub uninterp spec fn is_json_text(line: Seq<u8>) -> bool;

/// The bytes `serde_json::to_vec` makes of a JSON-RPC error response with
/// this fault's code, message and id; nothing if it fails.
pub uninterp spec fn error_response_text(
    fault: ProtocolFault,
    message: Seq<char>,
    id: Option<RequestId>,
) -> Option<Seq<u8>>;

/// Relies on `serde_json::from_slice::<jsonlrpc::RequestObject>`, keeping
/// only the id of the request it decodes.
#[verifier::external_body]
fn decode_request_id(line: &[u8]) -> (r: Option<Option<RequestId>>)
    ensures
        r == request_object_id(line@),
{
    match serde_json::from_slice::<jsonlrpc::RequestObject>(line) {
        Ok(request) => Some(request.id.map(|id| match id {
            jsonlrpc::RequestId::Number(n) => RequestId::Number(n),
            jsonlrpc::RequestId::String(s) => RequestId::String(s),
        })),
        Err(_) => None,
    }
}

/// Relies on `serde_json::from_slice::<serde_json::Value>`: whether the
/// line is one JSON value.
#[verifier::external_body]
fn parses_as_json(line: &[u8]) -> (r: bool)
    ensures
        r == is_json_text(line@),
{
    serde_json::from_slice::<serde_json::Value>(line).is_ok()
}

/// Relies on `serde_json::to_vec` of a `jsonlrpc::ResponseObject::Err`
/// whose code is jsonlrpc's constant for the fault.
#[verifier::external_body]
fn encode_error_response(fault: ProtocolFault, message: &str, id: &Option<RequestId>) -> (r:
    Option<Vec<u8>>)
    ensures
        match r {
            Some(bytes) => error_response_text(fault, message@, *id) == Some(bytes@),
            None => error_response_text(fault, message@, *id) is None,
        },
{
    let code = match fault {
        ProtocolFault::ParseError => jsonlrpc::ErrorCode::PARSE_ERROR,
        ProtocolFault::InvalidRequest => jsonlrpc::ErrorCode::INVALID_REQUEST,
        ProtocolFault::InvalidParams => jsonlrpc::ErrorCode::INVALID_PARAMS,
    };
    let id = id.clone().map(|id| match id {
        RequestId::Number(n) => jsonlrpc::RequestId::Number(n),
        RequestId::String(s) => jsonlrpc::RequestId::String(s),
    });
    let error = jsonlrpc::ErrorObject { code, message: message.to_owned(), data: None };
    let response = jsonlrpc::ResponseObject::Err { jsonrpc: jsonlrpc::JsonRpcVersion::V2, error, id };
    serde_json::to_vec(&response).ok()
}

/// The reply owed for a line, given whether it decodes as a request object
/// (and with which id) and whether it is JSON at all. A request object
/// keeps its id; otherwise the id is null.
pub open spec fn reply_for(request_id: Option<Option<RequestId>>, is_json: bool) -> ErrorReply {
    match request_id {
        Some(id) => ErrorReply { fault: ProtocolFault::InvalidParams, id },
        None => if is_json {
            ErrorReply { fault: ProtocolFault::InvalidRequest, id: None }
        } else {
            ErrorReply { fault: ProtocolFault::ParseError, id: None }
        },
    }
}

/// The reply owed for a line, from what the two decodes made of it.
pub fn error_reply_for(request_id: Option<Option<RequestId>>, is_json: bool) -> (r: ErrorReply)
    ensures
        r == reply_for(request_id, is_json),
{
    match request_id {
        Some(id) => ErrorReply { fault: ProtocolFault::InvalidParams, id },
        None => if is_json {
            ErrorReply { fault: ProtocolFault::InvalidRequest, id: None }
        } else {
            ErrorReply { fault: ProtocolFault::ParseError, id: None }
        },
    }
}

/// The reply owed for a line that the server's request type refused: it
/// is first read as a request object, to recover its id, then as any JSON.
pub fn classify_malformed(line: &[u8]) -> (r: ErrorReply)
    ensures
        r == reply_for(request_object_id(line@), is_json_text(line@)),
{
    let request_id = decode_request_id(line);
    if request_id.is_some() {
        error_reply_for(request_id, true)
    } else {
        let is_json = parses_as_json(line);
        error_reply_for(request_id, is_json)
    }
}

/// Queues on `conn` the error response owed for `line`, with `detail` as
/// its message, as a last word before the connection closes. Returns
/// whether the driver should flush it now. Nothing is queued when the
/// connection is closed, the response cannot be encoded, or it would not
/// fit in memory.
pub fn reject_malformed<S>(conn: &mut Connection<S>, line: &[u8], detail: &str) -> (flush: bool)
    ensures
        ({
            let reply = reply_for(request_object_id(line@), is_json_text(line@));
            let text = error_response_text(reply.fault, detail@, reply.id);
            if old(conn)@.state != ConnectionState::Closed && text is Some
                && old(conn)@.outbound.len() + text->Some_0.len() < usize::MAX {
                &&& final(conn)@ == (crate::connection::ConnectionView {
                    outbound: old(conn)@.outbound + text->Some_0.push(NEWLINE),
                    ..old(conn)@
                })
                &&& flush == (old(conn)@.state == ConnectionState::Connected)
            } else {
                &&& final(conn)@ == old(conn)@
                &&& !flush
            }
        }),
{
    let reply = classify_malformed(line);
    let bytes = match encode_error_response(reply.fault, detail, &reply.id) {
        Some(bytes) => bytes,
        None => return false,
    };
    if conn.queued_bytes_len() >= usize::MAX - bytes.len() {
        return false;
    }
    match conn.send(bytes.as_slice()) {
        Ok(flush) => flush,
        Err(_) => false,
    }
}

} // verus!
