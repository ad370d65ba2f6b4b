//! Tests for the consumer: handshake, life cycle, and the whole run.

use bytes::BytesMut;

use nsq::config::NsqConfig;
use nsq::consumer::magic_command;
use nsq::consumer::Consumer;
use nsq::errors::NsqError;
use nsq::message::Handler;
use nsq::message::Message;
use nsq::message::MessageReply;

/// Finishes every message it is handed.
struct FinHandler;

impl Handler for FinHandler {
    fn handle_message(&self, message: &Message) -> MessageReply {
        MessageReply::Fin(message.id())
    }
}

/// Requeues every message it is handed.
struct ReqHandler;

impl Handler for ReqHandler {
    fn handle_message(&self, message: &Message) -> MessageReply {
        MessageReply::Req(message.id())
    }
}

fn frame(payload: &[u8]) -> Vec<u8> {
    let mut v = Vec::new();
    v.extend_from_slice(&(payload.len() as u32).to_be_bytes());
    v.extend_from_slice(payload);
    v
}

fn message_frame(timestamp: i64, attempts: u16, id: &[u8; 16], body: &[u8]) -> Vec<u8> {
    let mut p = Vec::new();
    p.extend_from_slice(&2i32.to_be_bytes());
    p.extend_from_slice(&timestamp.to_be_bytes());
    p.extend_from_slice(&attempts.to_be_bytes());
    p.extend_from_slice(id);
    p.extend_from_slice(body);
    frame(&p)
}

#[test]
fn config_defaults_to_one_in_flight() {
    let config = NsqConfig::default();
    assert_eq!(config.max_in_flight(), 1);
    let config = NsqConfig::new(64);
    assert_eq!(config.max_in_flight(), 64);
}

#[test]
fn handshake_commands_have_the_exact_bytes() {
    let consumer: Consumer<FinHandler> = Consumer::new("test", "chan", NsqConfig::default());
    assert_eq!(magic_command(), b"  V2".to_vec());
    assert_eq!(consumer.subscribe_command(), b"SUB test chan\n".to_vec());
    assert_eq!(consumer.ready_command(), b"RDY 1\n".to_vec());
}

#[test]
fn handshake_writes_come_in_order_before_any_reply() {
    // With nothing inbound, a run is exactly the three handshake writes,
    // in order: magic, SUB line, RDY line.
    let mut consumer: Consumer<FinHandler> = Consumer::new("test", "chan", NsqConfig::default());
    consumer.connect_to_nsqd(Ok(())).unwrap();
    let out = consumer.begin_consuming(&Vec::new()).unwrap();
    assert_eq!(out, b"  V2SUB test chan\nRDY 1\n".to_vec());
}

#[test]
fn begin_consuming_without_connect_is_an_invalid_conn_error() {
    let mut consumer: Consumer<FinHandler> = Consumer::new("test", "chan", NsqConfig::default());
    consumer.add_handler(FinHandler);
    assert!(matches!(
        consumer.begin_consuming(&Vec::new()),
        Err(NsqError::InvalidConn)
    ));
}

#[test]
fn failed_connect_leaves_the_consumer_idle() {
    let mut consumer: Consumer<FinHandler> = Consumer::new("test", "chan", NsqConfig::default());
    let io = std::io::Error::new(std::io::ErrorKind::ConnectionRefused, "refused");
    assert!(matches!(
        consumer.connect_to_nsqd(Err(NsqError::Io(io))),
        Err(NsqError::Io(_))
    ));
    assert!(matches!(
        consumer.begin_consuming(&Vec::new()),
        Err(NsqError::InvalidConn)
    ));
}

#[test]
fn end_to_end_message_is_finished_with_its_id() {
    let id = [0xAB_u8; 16];
    let inbound = message_frame(1000, 1, &id, b"hello");
    let mut consumer: Consumer<FinHandler> = Consumer::new("test", "chan", NsqConfig::default());
    consumer.connect_to_nsqd(Ok(())).unwrap();
    consumer.add_handler(FinHandler);
    let out = consumer.begin_consuming(&inbound).unwrap();
    let mut expected = b"  V2SUB test chan\nRDY 1\n".to_vec();
    expected.extend_from_slice(b"FIN ");
    expected.extend_from_slice(&id);
    expected.push(b'\n');
    assert_eq!(out, expected);
}

#[test]
fn replies_follow_message_order() {
    let first = [0x01_u8; 16];
    let second = [0x02_u8; 16];
    let mut inbound = message_frame(1, 1, &first, b"a");
    inbound.extend_from_slice(&message_frame(2, 1, &second, b"b"));
    let mut consumer: Consumer<ReqHandler> = Consumer::new("t", "c", NsqConfig::default());
    consumer.connect_to_nsqd(Ok(())).unwrap();
    consumer.add_handler(ReqHandler);
    let out = consumer.begin_consuming(&inbound).unwrap();
    let mut expected = b"  V2SUB t c\nRDY 1\n".to_vec();
    expected.extend_from_slice(b"REQ ");
    expected.extend_from_slice(&first);
    expected.push(b'\n');
    expected.extend_from_slice(b"REQ ");
    expected.extend_from_slice(&second);
    expected.push(b'\n');
    assert_eq!(out, expected);
}

#[test]
fn heartbeat_frames_are_answered_with_nop() {
    let mut heartbeat = 0i32.to_be_bytes().to_vec();
    heartbeat.extend_from_slice(b"_heartbeat_");
    let inbound = frame(&heartbeat);
    let mut consumer: Consumer<FinHandler> = Consumer::new("test", "chan", NsqConfig::default());
    consumer.connect_to_nsqd(Ok(())).unwrap();
    consumer.add_handler(FinHandler);
    let out = consumer.begin_consuming(&inbound).unwrap();
    assert_eq!(out, b"  V2SUB test chan\nRDY 1\nNOP\n".to_vec());
}

#[test]
fn respond_to_frame_answers_non_messages_with_nop() {
    let consumer: Consumer<FinHandler> = Consumer::new("test", "chan", NsqConfig::default());
    let mut heartbeat = 0i32.to_be_bytes().to_vec();
    heartbeat.extend_from_slice(b"_heartbeat_");
    assert!(matches!(
        consumer.respond_to_frame(&heartbeat),
        Ok(MessageReply::Nop)
    ));
}

#[test]
fn respond_to_frame_uses_the_handler() {
    let mut consumer: Consumer<FinHandler> = Consumer::new("test", "chan", NsqConfig::default());
    consumer.add_handler(FinHandler);
    let id = [0x5A_u8; 16];
    let framed = message_frame(9, 3, &id, b"x");
    // Strip the 4-byte length prefix to get the payload.
    let payload = framed[4..].to_vec();
    match consumer.respond_to_frame(&payload) {
        Ok(MessageReply::Fin(got)) => assert_eq!(got, BytesMut::from(&id[..])),
        _ => panic!("expected the handler's Fin reply"),
    }
}

#[test]
fn truncated_run_is_a_framing_error() {
    let mut inbound = message_frame(1000, 1, &[0xAB; 16], b"hello");
    inbound.truncate(inbound.len() - 3);
    let mut consumer: Consumer<FinHandler> = Consumer::new("test", "chan", NsqConfig::default());
    consumer.connect_to_nsqd(Ok(())).unwrap();
    consumer.add_handler(FinHandler);
    assert!(matches!(
        consumer.begin_consuming(&inbound),
        Err(NsqError::Framing)
    ));
}

#[test]
fn short_message_frame_ends_the_run_with_a_parse_error() {
    // A frame whose payload says "message" but is shorter than the header.
    let mut payload = 2i32.to_be_bytes().to_vec();
    payload.extend_from_slice(&[0u8; 10]);
    let inbound = frame(&payload);
    let mut consumer: Consumer<FinHandler> = Consumer::new("test", "chan", NsqConfig::default());
    consumer.connect_to_nsqd(Ok(())).unwrap();
    consumer.add_handler(FinHandler);
    assert!(matches!(
        consumer.begin_consuming(&inbound),
        Err(NsqError::ProtocolParse)
    ));
}

#[test]
fn message_without_handler_is_answered_with_nop() {
    let inbound = message_frame(1000, 1, &[0xAB; 16], b"hello");
    let mut consumer: Consumer<FinHandler> = Consumer::new("test", "chan", NsqConfig::default());
    consumer.connect_to_nsqd(Ok(())).unwrap();
    let out = consumer.begin_consuming(&inbound).unwrap();
    assert_eq!(out, b"  V2SUB test chan\nRDY 1\nNOP\n".to_vec());
}

#[test]
fn ready_count_reflects_the_configuration() {
    let mut consumer: Consumer<FinHandler> = Consumer::new("topic", "chan", NsqConfig::new(2500));
    assert_eq!(consumer.ready_command(), b"RDY 2500\n".to_vec());
    consumer.connect_to_nsqd(Ok(())).unwrap();
    let out = consumer.begin_consuming(&Vec::new()).unwrap();
    assert_eq!(out, b"  V2SUB topic chan\nRDY 2500\n".to_vec());
}
