//! Host Protocol message types.
//!
//! The wire envelope is a map with a `"type"` field holding the verbatim
//! PascalCase variant name, with the variant's fields flattened beside it.
//! The envelope's tag is fixed here: `Message::type_tag` gives it and
//! `MessageKind::from_tag` reads it back.

use vstd::prelude::*;
use crate::text::str_eq;

verus! {

/// Transport-level error codes.
#[derive(Debug, Clone, Copy, PartialEq, Eq, Structural)]
pub enum ProtocolErrorCode {
    /// Received a message type the receiver does not know.
    UnknownMessageType,
    /// A frame could not be decoded as a valid message.
    MalformedFrame,
    /// A message arrived in a state that does not expect it.
    UnexpectedMessage,
    /// The handshake was rejected.
    HandshakeRejected,
}

/// The protocol revision: exact-match-or-refuse.
pub const PROTOCOL_VERSION: u32 = 1;

/// The host's first frame (host to core).
#[derive(Debug, Clone, Copy, PartialEq, Eq, Structural)]
pub struct Handshake {
    pub protocol_version: u32,
    pub host_pid: u32,
}

/// The core's acceptance of the host's handshake.
#[derive(Debug, Clone, Copy, PartialEq, Eq, Structural)]
pub struct HandshakeAck;

/// The core's liveness probe.
#[derive(Debug, Clone, Copy, PartialEq, Eq, Structural)]
pub struct Heartbeat;

/// The host's reply to a heartbeat.
#[derive(Debug, Clone, Copy, PartialEq, Eq, Structural)]
pub struct Pong;

/// The core tells the host to shut down; `drain` asks for an ack first.
#[derive(Debug, Clone, Copy, PartialEq, Eq, Structural)]
pub struct Shutdown {
    pub drain: bool,
}

/// The host acknowledges a draining shutdown.
#[derive(Debug, Clone, Copy, PartialEq, Eq, Structural)]
pub struct ShutdownAck;

/// A request to echo a payload back, correlated by `request_id`.
#[derive(Debug, Clone, PartialEq, Eq)]
pub struct EchoRequest {
    pub request_id: u64,
    pub payload: Vec<u8>,
}

/// The reply to an `EchoRequest`, carrying the same `request_id`.
#[derive(Debug, Clone, PartialEq, Eq)]
pub struct EchoResponse {
    pub request_id: u64,
    pub payload: Vec<u8>,
}

/// A transport-level error.
#[derive(Debug, Clone, PartialEq, Eq)]
pub struct ProtocolError {
    pub code: ProtocolErrorCode,
    pub message: String,
}

/// Every Host Protocol message.
#[derive(Debug, Clone, PartialEq, Eq)]
pub enum Message {
    Handshake { inner: Handshake },
    HandshakeAck,
    Heartbeat,
    Pong,
    Shutdown { inner: Shutdown },
    ShutdownAck,
    EchoRequest { inner: EchoRequest },
    EchoResponse { inner: EchoResponse },
    ProtocolError { inner: ProtocolError },
}

/// The nine message variants, without their fields.
#[derive(Debug, Clone, Copy, PartialEq, Eq, Structural)]
pub enum MessageKind {
    Handshake,
    HandshakeAck,
    Heartbeat,
    Pong,
    Shutdown,
    ShutdownAck,
    EchoRequest,
    EchoResponse,
    ProtocolError,
}

/// The wire tag of a message kind: its verbatim variant name.
pub open spec fn kind_tag(k: MessageKind) -> Seq<char> {
    match k {
        MessageKind::Handshake => "Handshake"@,
        MessageKind::HandshakeAck => "HandshakeAck"@,
        MessageKind::Heartbeat => "Heartbeat"@,
        MessageKind::Pong => "Pong"@,
        MessageKind::Shutdown => "Shutdown"@,
        MessageKind::ShutdownAck => "ShutdownAck"@,
        MessageKind::EchoRequest => "EchoRequest"@,
        MessageKind::EchoResponse => "EchoResponse"@,
        MessageKind::ProtocolError => "ProtocolError"@,
    }
}

/// The kind of a message.
pub open spec fn message_kind(m: Message) -> MessageKind {
    match m {
        Message::Handshake { .. } => MessageKind::Handshake,
        Message::HandshakeAck => MessageKind::HandshakeAck,
        Message::Heartbeat => MessageKind::Heartbeat,
        Message::Pong => MessageKind::Pong,
        Message::Shutdown { .. } => MessageKind::Shutdown,
        Message::ShutdownAck => MessageKind::ShutdownAck,
        Message::EchoRequest { .. } => MessageKind::EchoRequest,
        Message::EchoResponse { .. } => MessageKind::EchoResponse,
        Message::ProtocolError { .. } => MessageKind::ProtocolError,
    }
}

/// The kind whose tag is `t`, if any.
pub open spec fn kind_of_tag(t: Seq<char>) -> Option<MessageKind> {
    if t == "Handshake"@ {
        Some(MessageKind::Handshake)
    } else if t == "HandshakeAck"@ {
        Some(MessageKind::HandshakeAck)
    } else if t == "Heartbeat"@ {
        Some(MessageKind::Heartbeat)
    } else if t == "Pong"@ {
        Some(MessageKind::Pong)
    } else if t == "Shutdown"@ {
        Some(MessageKind::Shutdown)
    } else if t == "ShutdownAck"@ {
        Some(MessageKind::ShutdownAck)
    } else if t == "EchoRequest"@ {
        Some(MessageKind::EchoRequest)
    } else if t == "EchoResponse"@ {
        Some(MessageKind::EchoResponse)
    } else if t == "ProtocolError"@ {
        Some(MessageKind::ProtocolError)
    } else {
        None
    }
}

impl MessageKind {
    /// The wire tag for this kind.
    pub fn tag(&self) -> (r: &'static str)
        ensures
            r@ == kind_tag(*self),
    {
        match self {
            MessageKind::Handshake => "Handshake",
            MessageKind::HandshakeAck => "HandshakeAck",
            MessageKind::Heartbeat => "Heartbeat",
            MessageKind::Pong => "Pong",
            MessageKind::Shutdown => "Shutdown",
            MessageKind::ShutdownAck => "ShutdownAck",
            MessageKind::EchoRequest => "EchoRequest",
            MessageKind::EchoResponse => "EchoResponse",
            MessageKind::ProtocolError => "ProtocolError",
        }
    }

    /// Reads a wire tag back: the kind whose tag is exactly `tag`, or
    /// `None` for an unknown message type.
    pub fn from_tag(tag: &str) -> (r: Option<MessageKind>)
        ensures
            r == kind_of_tag(tag@),
    {
        if str_eq(tag, "Handshake") {
            Some(MessageKind::Handshake)
        } else if str_eq(tag, "HandshakeAck") {
            Some(MessageKind::HandshakeAck)
        } else if str_eq(tag, "Heartbeat") {
            Some(MessageKind::Heartbeat)
        } else if str_eq(tag, "Pong") {
            Some(MessageKind::Pong)
        } else if str_eq(tag, "Shutdown") {
            Some(MessageKind::Shutdown)
        } else if str_eq(tag, "ShutdownAck") {
            Some(MessageKind::ShutdownAck)
        } else if str_eq(tag, "EchoRequest") {
            Some(MessageKind::EchoRequest)
        } else if str_eq(tag, "EchoResponse") {
            Some(MessageKind::EchoResponse)
        } else if str_eq(tag, "ProtocolError") {
            Some(MessageKind::ProtocolError)
        } else {
            None
        }
    }
}

impl Message {
    /// The kind of this message.
    pub fn kind(&self) -> (r: MessageKind)
        ensures
            r == message_kind(*self),
    {
        match self {
            Message::Handshake { .. } => MessageKind::Handshake,
            Message::HandshakeAck => MessageKind::HandshakeAck,
            Message::Heartbeat => MessageKind::Heartbeat,
            Message::Pong => MessageKind::Pong,
            Message::Shutdown { .. } => MessageKind::Shutdown,
            Message::ShutdownAck => MessageKind::ShutdownAck,
            Message::EchoRequest { .. } => MessageKind::EchoRequest,
            Message::EchoResponse { .. } => MessageKind::EchoResponse,
            Message::ProtocolError { .. } => MessageKind::ProtocolError,
        }
    }

    /// The wire tag for this variant: the verbatim PascalCase name.
    pub fn type_tag(&self) -> (r: &'static str)
        ensures
            r@ == kind_tag(message_kind(*self)),
    {
        self.kind().tag()
    }
}

/// Every kind's tag reads back as that kind: the tag written for a message
/// is the tag that selects its variant when read.
pub proof fn lemma_tag_round_trip(k: MessageKind)
    ensures
        kind_of_tag(kind_tag(k)) == Some(k),
{
    reveal_strlit("Handshake");
    reveal_strlit("HandshakeAck");
    reveal_strlit("Heartbeat");
    reveal_strlit("Pong");
    reveal_strlit("Shutdown");
    reveal_strlit("ShutdownAck");
    reveal_strlit("EchoRequest");
    reveal_strlit("EchoResponse");
    reveal_strlit("ProtocolError");
    assert("Handshake"@[1] != "Heartbeat"@[1]);
    assert("HandshakeAck"@[0] != "EchoResponse"@[0]);
    assert("ShutdownAck"@[0] != "EchoRequest"@[0]);
    assert("Handshake"@.len() == 9);
    assert("HandshakeAck"@.len() == 12);
    assert("Heartbeat"@.len() == 9);
    assert("Pong"@.len() == 4);
    assert("Shutdown"@.len() == 8);
    assert("ShutdownAck"@.len() == 11);
    assert("EchoRequest"@.len() == 11);
    assert("EchoResponse"@.len() == 12);
    assert("ProtocolError"@.len() == 13);
}

/// Tags are read back only for the kind that wrote them: a tag that reads
/// as a kind is that kind's tag.
pub proof fn lemma_tag_read_is_exact(t: Seq<char>)
    ensures
        kind_of_tag(t) matches Some(k) ==> kind_tag(k) == t,
{
}

} // verus!
