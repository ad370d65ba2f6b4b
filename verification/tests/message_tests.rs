//! Tests for the message parser and the reply encoder.

use bytes::BytesMut;

use nsq::errors::NsqError;
use nsq::message::parse_frame;
use nsq::message::Frame;
use nsq::message::MessageReply;
use nsq::message::NsqResponder;

/// A message frame payload: type tag 2, then timestamp, attempts, id, body.
fn message_payload(timestamp: i64, attempts: u16, id: &[u8; 16], body: &[u8]) -> Vec<u8> {
    let mut p = Vec::new();
    p.extend_from_slice(&2i32.to_be_bytes());
    p.extend_from_slice(&timestamp.to_be_bytes());
    p.extend_from_slice(&attempts.to_be_bytes());
    p.extend_from_slice(id);
    p.extend_from_slice(body);
    p
}

#[test]
fn parse_message_frame_reads_every_field() {
    let payload = message_payload(1000, 1, &[0xAB; 16], b"hello");
    match parse_frame(&payload) {
        Ok(Frame::Message(m)) => {
            assert_eq!(m.timestamp(), 1000);
            assert_eq!(m.attempts(), 1);
            assert_eq!(m.id().as_ref(), &[0xAB; 16]);
            assert_eq!(m.body().as_ref(), b"hello");
        }
        _ => panic!("expected a message frame"),
    }
}

#[test]
fn parse_negative_timestamp_and_empty_body() {
    let payload = message_payload(-5, 65535, &[0x01; 16], b"");
    match parse_frame(&payload) {
        Ok(Frame::Message(m)) => {
            assert_eq!(m.timestamp(), -5);
            assert_eq!(m.attempts(), 65535);
            assert_eq!(m.body().as_ref(), b"");
        }
        _ => panic!("expected a message frame"),
    }
}

#[test]
fn short_message_frame_is_a_parse_error() {
    // 29 bytes: one byte short of the fixed message header.
    let mut payload = message_payload(0, 0, &[0u8; 16], b"");
    payload.pop();
    assert_eq!(payload.len(), 29);
    assert!(matches!(parse_frame(&payload), Err(NsqError::ProtocolParse)));
}

#[test]
fn frame_shorter_than_its_type_tag_is_a_parse_error() {
    let payload = vec![0u8, 0, 2];
    assert!(matches!(parse_frame(&payload), Err(NsqError::ProtocolParse)));
}

#[test]
fn response_error_and_unknown_frames_keep_their_bodies() {
    let mut response = 0i32.to_be_bytes().to_vec();
    response.extend_from_slice(b"_heartbeat_");
    match parse_frame(&response) {
        Ok(Frame::Response(b)) => assert_eq!(b, b"_heartbeat_".to_vec()),
        _ => panic!("expected a response frame"),
    }

    let mut error = 1i32.to_be_bytes().to_vec();
    error.extend_from_slice(b"E_BAD_BODY");
    match parse_frame(&error) {
        Ok(Frame::Error(b)) => assert_eq!(b, b"E_BAD_BODY".to_vec()),
        _ => panic!("expected an error frame"),
    }

    let mut unknown = 7i32.to_be_bytes().to_vec();
    unknown.extend_from_slice(b"??");
    match parse_frame(&unknown) {
        Ok(Frame::Unknown(tag, b)) => {
            assert_eq!(tag, 7);
            assert_eq!(b, b"??".to_vec());
        }
        _ => panic!("expected an unknown frame"),
    }
}

#[test]
fn encode_nop_is_the_exact_literal() {
    let mut responder = NsqResponder::default();
    let mut dst = BytesMut::new();
    responder.encode(MessageReply::Nop, &mut dst).unwrap();
    assert_eq!(dst.as_ref(), b"NOP\n");
}

#[test]
fn encode_fin_req_touch_are_verb_space_id_newline() {
    let id = [0xCD_u8; 16];
    let mut responder = NsqResponder::default();

    let mut dst = BytesMut::new();
    responder
        .encode(MessageReply::Fin(BytesMut::from(&id[..])), &mut dst)
        .unwrap();
    let mut expected = b"FIN ".to_vec();
    expected.extend_from_slice(&id);
    expected.push(b'\n');
    assert_eq!(dst.as_ref(), expected.as_slice());

    let mut dst = BytesMut::new();
    responder
        .encode(MessageReply::Req(BytesMut::from(&id[..])), &mut dst)
        .unwrap();
    let mut expected = b"REQ ".to_vec();
    expected.extend_from_slice(&id);
    expected.push(b'\n');
    assert_eq!(dst.as_ref(), expected.as_slice());

    let mut dst = BytesMut::new();
    responder
        .encode(MessageReply::Touch(BytesMut::from(&id[..])), &mut dst)
        .unwrap();
    let mut expected = b"TOUCH ".to_vec();
    expected.extend_from_slice(&id);
    expected.push(b'\n');
    assert_eq!(dst.as_ref(), expected.as_slice());
}

#[test]
fn repeated_encoding_never_corrupts_earlier_bytes() {
    // Drive the buffer through several capacity growths and check that every
    // line written earlier is still intact.
    let mut responder = NsqResponder::default();
    let mut dst = BytesMut::new();
    let mut expected: Vec<u8> = Vec::new();
    for round in 0..200u32 {
        let byte = (round % 256) as u8;
        let id = [byte; 16];
        responder
            .encode(MessageReply::Fin(BytesMut::from(&id[..])), &mut dst)
            .unwrap();
        expected.extend_from_slice(b"FIN ");
        expected.extend_from_slice(&id);
        expected.push(b'\n');
        assert_eq!(dst.as_ref(), expected.as_slice());
    }
}

#[test]
fn parsed_id_round_trips_into_the_reply() {
    let id = [0xAB_u8; 16];
    let payload = message_payload(1000, 1, &id, b"hello");
    let msg = match parse_frame(&payload) {
        Ok(Frame::Message(m)) => m,
        _ => panic!("expected a message frame"),
    };
    let mut responder = NsqResponder::default();
    let mut dst = BytesMut::new();
    responder
        .encode(MessageReply::Touch(msg.id()), &mut dst)
        .unwrap();
    // The 16 identifier bytes sit between the verb's space and the newline.
    assert_eq!(&dst.as_ref()[6..22], &payload[14..30]);
    assert_eq!(&dst.as_ref()[6..22], &id);
}
