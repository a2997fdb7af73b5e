//! The conformance fixture set: one of each message variant, exercising
//! every field, plus the 2^53 - 1 `request_id` boundary (the largest integer
//! a JavaScript number holds exactly).
//!
//! The fixture file is the sequence of frames of the encoded fixtures; the
//! framing is `framing::encode_frames`.

use vstd::prelude::*;
use vstd::string::StringExecFns;
use super::messages::{
    EchoRequest, EchoResponse, Handshake, Message, ProtocolError, ProtocolErrorCode, Shutdown,
    PROTOCOL_VERSION,
};

verus! {

/// The largest integer a JavaScript number represents exactly.
pub const MAX_SAFE_REQUEST_ID: u64 = 9007199254740991;

/// Whether `m` is a protocol error with the given code and message text.
pub open spec fn is_protocol_error(m: Message, code: ProtocolErrorCode, text: Seq<char>) -> bool {
    m matches Message::ProtocolError { inner } && inner.code == code && inner.message@ == text
}

/// Whether `m` is an echo request with the given id and payload.
pub open spec fn is_echo_request(m: Message, id: u64, payload: Seq<u8>) -> bool {
    m matches Message::EchoRequest { inner } && inner.request_id == id && inner.payload@ == payload
}

/// Whether `m` is an echo response with the given id and payload.
pub open spec fn is_echo_response(m: Message, id: u64, payload: Seq<u8>) -> bool {
    m matches Message::EchoResponse { inner } && inner.request_id == id && inner.payload@ == payload
}

/// The fixture set, message by message.
pub open spec fn is_fixture_set(s: Seq<Message>) -> bool {
    &&& s.len() == 15
    &&& s[0] == Message::Handshake {
        inner: Handshake { protocol_version: PROTOCOL_VERSION, host_pid: 1234 },
    }
    &&& s[1] == Message::HandshakeAck
    &&& s[2] == Message::Heartbeat
    &&& s[3] == Message::Pong
    &&& s[4] == Message::Shutdown { inner: Shutdown { drain: true } }
    &&& s[5] == Message::Shutdown { inner: Shutdown { drain: false } }
    &&& s[6] == Message::ShutdownAck
    &&& is_echo_request(s[7], 42, "hello"@.map_values(|c: char| c as u8))
    &&& is_echo_response(s[8], 42, "hello"@.map_values(|c: char| c as u8))
    &&& is_echo_request(s[9], MAX_SAFE_REQUEST_ID, "max-safe"@.map_values(|c: char| c as u8))
    &&& is_echo_response(s[10], MAX_SAFE_REQUEST_ID, "max-safe"@.map_values(|c: char| c as u8))
    &&& is_protocol_error(s[11], ProtocolErrorCode::UnknownMessageType, "unknown"@)
    &&& is_protocol_error(s[12], ProtocolErrorCode::MalformedFrame, "bad frame"@)
    &&& is_protocol_error(s[13], ProtocolErrorCode::UnexpectedMessage, "unexpected"@)
    &&& is_protocol_error(s[14], ProtocolErrorCode::HandshakeRejected, "rejected"@)
}

fn hello() -> (r: Vec<u8>)
    ensures
        r@ == "hello"@.map_values(|c: char| c as u8),
{
    let r: Vec<u8> = vec![104, 101, 108, 108, 111];
    proof {
        reveal_strlit("hello");
        assert(r@ =~= "hello"@.map_values(|c: char| c as u8));
    }
    r
}

fn max_safe() -> (r: Vec<u8>)
    ensures
        r@ == "max-safe"@.map_values(|c: char| c as u8),
{
    let r: Vec<u8> = vec![109, 97, 120, 45, 115, 97, 102, 101];
    proof {
        reveal_strlit("max-safe");
        assert(r@ =~= "max-safe"@.map_values(|c: char| c as u8));
    }
    r
}

fn protocol_error(code: ProtocolErrorCode, text: &str) -> (r: Message)
    ensures
        is_protocol_error(r, code, text@),
{
    Message::ProtocolError { inner: ProtocolError { code, message: String::from_str(text) } }
}

/// The fixture set: one of each message variant, exercising every field.
pub fn fixture_messages() -> (r: Vec<Message>)
    ensures
        is_fixture_set(r@),
{
    let mut v: Vec<Message> = Vec::new();
    v.push(
        Message::Handshake {
            inner: Handshake { protocol_version: PROTOCOL_VERSION, host_pid: 1234 },
        },
    );
    v.push(Message::HandshakeAck);
    v.push(Message::Heartbeat);
    v.push(Message::Pong);
    v.push(Message::Shutdown { inner: Shutdown { drain: true } });
    v.push(Message::Shutdown { inner: Shutdown { drain: false } });
    v.push(Message::ShutdownAck);
    v.push(Message::EchoRequest { inner: EchoRequest { request_id: 42, payload: hello() } });
    v.push(Message::EchoResponse { inner: EchoResponse { request_id: 42, payload: hello() } });
    v.push(
        Message::EchoRequest {
            inner: EchoRequest { request_id: MAX_SAFE_REQUEST_ID, payload: max_safe() },
        },
    );
    v.push(
        Message::EchoResponse {
            inner: EchoResponse { request_id: MAX_SAFE_REQUEST_ID, payload: max_safe() },
        },
    );
    v.push(protocol_error(ProtocolErrorCode::UnknownMessageType, "unknown"));
    v.push(protocol_error(ProtocolErrorCode::MalformedFrame, "bad frame"));
    v.push(protocol_error(ProtocolErrorCode::UnexpectedMessage, "unexpected"));
    v.push(protocol_error(ProtocolErrorCode::HandshakeRejected, "rejected"));
    v
}

} // verus!
