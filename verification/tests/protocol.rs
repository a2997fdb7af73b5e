use pi_rs::protocol::fixtures::fixture_messages;
use pi_rs::protocol::framing::{
    be32_bytes, decode_frame, decode_frames, decode_length, encode_frame, encode_frames, FrameError,
    MAX_FRAME_SIZE,
};
use pi_rs::protocol::messages::{Message, MessageKind};

#[test]
fn write_frame_emits_be_length_then_body() {
    let framed = encode_frame(b"hello").unwrap();
    assert_eq!(&framed[..4], &[0, 0, 0, 5]);
    assert_eq!(&framed[4..], b"hello");
}

#[test]
fn read_frame_handles_empty_body() {
    let framed = encode_frame(b"").unwrap();
    assert_eq!(framed, vec![0, 0, 0, 0]);
    let (body, used) = decode_frame(&framed).unwrap();
    assert!(body.is_empty());
    assert_eq!(used, 4);
}

#[test]
fn read_frame_round_trips_write_frame() {
    let body = b"round trip".to_vec();
    let framed = encode_frame(&body).unwrap();
    let (got, used) = decode_frame(&framed).unwrap();
    assert_eq!(got, body);
    assert_eq!(used, framed.len());
}

#[test]
fn read_frame_rejects_oversized_length_before_allocating() {
    let prefix = be32_bytes((MAX_FRAME_SIZE + 1) as u32);
    assert_eq!(decode_length(&prefix), Err(FrameError::TooLarge));
    assert_eq!(decode_length(&be32_bytes(MAX_FRAME_SIZE as u32)), Ok(MAX_FRAME_SIZE));
    assert_eq!(decode_frame(&prefix), Err(FrameError::TooLarge));
}

#[test]
fn truncated_frame_is_incomplete() {
    assert_eq!(decode_frame(&[0, 0]), Err(FrameError::Incomplete));
    assert_eq!(decode_frame(&[0, 0, 0, 3, b'a']), Err(FrameError::Incomplete));
}

#[test]
fn frames_round_trip_in_order() {
    let bodies = vec![b"a".to_vec(), Vec::new(), b"xyz".to_vec()];
    let stream = encode_frames(&bodies).unwrap();
    assert_eq!(stream, vec![0, 0, 0, 1, b'a', 0, 0, 0, 0, 0, 0, 0, 3, b'x', b'y', b'z']);
    assert_eq!(decode_frames(&stream).unwrap(), bodies);
}

#[test]
fn message_tags_round_trip() {
    for m in fixture_messages() {
        let tag = m.type_tag();
        assert_eq!(MessageKind::from_tag(tag), Some(m.kind()));
        assert_eq!(m.kind().tag(), tag);
    }
    assert_eq!(MessageKind::from_tag("Nope"), None);
    assert_eq!(Message::Pong.type_tag(), "Pong");
}

#[test]
fn fixture_set_covers_every_variant() {
    let fx = fixture_messages();
    for k in [
        MessageKind::Handshake,
        MessageKind::HandshakeAck,
        MessageKind::Heartbeat,
        MessageKind::Pong,
        MessageKind::Shutdown,
        MessageKind::ShutdownAck,
        MessageKind::EchoRequest,
        MessageKind::EchoResponse,
        MessageKind::ProtocolError,
    ] {
        assert!(fx.iter().any(|m| m.kind() == k), "missing {:?}", k);
    }
}

#[test]
fn frame_error_reasons_are_distinct() {
    assert_ne!(FrameError::TooLarge.reason(), FrameError::Incomplete.reason());
    assert_ne!(FrameError::BodyTooLong.reason(), FrameError::TooLarge.reason());
}
