//! The message module holds the type that an `nsqd` instance writes on the
//! wire for a single message, the parser that reads it out of a frame
//! payload, the reply values a handler can answer with, and the encoder that
//! writes a reply in the broker's text-line command form.

use vstd::prelude::*;

use bytes::BytesMut;

use crate::buffer::bytes_clone;
use crate::buffer::bytes_extend;
use crate::buffer::bytes_extend_bytes;
use crate::buffer::bytes_from_slice;
use crate::buffer::bytes_remaining_mut;
use crate::buffer::bytes_reserve;
use crate::buffer::bytes_view;
use crate::errors::NsqError;
use crate::errors::NsqResult;
use crate::wire::be_i32_int;
use crate::wire::be_i64_int;
use crate::wire::be_read_i32;
use crate::wire::be_read_i64;
use crate::wire::be_read_u16;
use crate::wire::be_u16_int;
use vstd::slice::slice_subrange;
use vstd::slice::slice_to_vec;

verus! {

/// Before each encode the output buffer is grown by this much whenever the
/// writable headroom is low, to amortize allocation under sustained load.
pub const BUFFER_GROW: usize = 1024;

/// The headroom threshold that triggers growth: enough for the largest single
/// reply line with a 16-byte identifier.
pub const SPACE_NEEDED: usize = 32;

/// The frame type tag that marks a message frame.
pub const MESSAGE_FRAME_TYPE: i32 = 2;

/// The least length of a message frame payload: a 4-byte type tag, an 8-byte
/// timestamp, a 2-byte attempt count and a 16-byte identifier.
pub const MESSAGE_HEADER_LEN: usize = 30;

/// The fixed length of a message identifier.
pub const MESSAGE_ID_LEN: usize = 16;

/// `Message` represents a message on the wire.
pub struct Message {
    id: BytesMut,
    body: BytesMut,
    timestamp: i64,
    attempts: u16,
}

impl Message {
    /// The bytes of the identifier, for use in specifications.
    pub closed spec fn spec_id(&self) -> Seq<u8> {
        bytes_view(self.id)
    }

    /// The bytes of the body, for use in specifications.
    pub closed spec fn spec_body(&self) -> Seq<u8> {
        bytes_view(self.body)
    }

    /// The timestamp, for use in specifications.
    pub closed spec fn spec_timestamp(&self) -> i64 {
        self.timestamp
    }

    /// The attempt count, for use in specifications.
    pub closed spec fn spec_attempts(&self) -> u16 {
        self.attempts
    }

    /// A well-formed message carries the fixed-size identifier.
    pub open spec fn wf(&self) -> bool {
        self.spec_id().len() == MESSAGE_ID_LEN
    }

    /// The unique message ID which is used to reply back to nsqd.
    pub fn id(&self) -> (r: BytesMut)
        ensures
            bytes_view(r) == self.spec_id(),
    {
        bytes_clone(&self.id)
    }

    /// The body of the message.
    pub fn body(&self) -> (r: BytesMut)
        ensures
            bytes_view(r) == self.spec_body(),
    {
        bytes_clone(&self.body)
    }

    /// This is the timestamp of the message.
    pub fn timestamp(&self) -> (r: i64)
        ensures
            r == self.spec_timestamp(),
    {
        self.timestamp
    }

    /// Return the number of attempts that nsqd made to deliver the message.
    pub fn attempts(&self) -> (r: u16)
        ensures
            r == self.spec_attempts(),
    {
        self.attempts
    }
}

/// `MessageReply` tells nsqd what to do with the message that was previously
/// consumed.
pub enum MessageReply {
    /// `Fin` tells the broker the message is fully processed.
    Fin(BytesMut),
    /// `Req` tells the broker to redeliver the message.
    Req(BytesMut),
    /// `Touch` tells the broker to extend the processing deadline.
    Touch(BytesMut),
    /// `Nop` carries no identifier; it is used for heartbeats only.
    Nop,
}

/// A reply is well formed when any identifier it carries has the fixed
/// identifier size. The protocol requires the identifier of a non-NoOp reply
/// to be the identifier of a delivered message, and those are always 16
/// bytes.
pub open spec fn reply_wf(r: MessageReply) -> bool {
    match r {
        MessageReply::Fin(id) => bytes_view(id).len() == MESSAGE_ID_LEN,
        MessageReply::Req(id) => bytes_view(id).len() == MESSAGE_ID_LEN,
        MessageReply::Touch(id) => bytes_view(id).len() == MESSAGE_ID_LEN,
        MessageReply::Nop => true,
    }
}

/// The exact bytes of the NoOp command line.
pub open spec fn nop_bytes() -> Seq<u8> {
    seq![78u8, 79u8, 80u8, 10u8]
}

/// The verb that names a non-NoOp reply on the wire.
pub open spec fn reply_verb(r: MessageReply) -> Seq<u8> {
    match r {
        MessageReply::Fin(_) => seq![70u8, 73u8, 78u8],
        MessageReply::Req(_) => seq![82u8, 69u8, 81u8],
        MessageReply::Touch(_) => seq![84u8, 79u8, 85u8, 67u8, 72u8],
        MessageReply::Nop => Seq::<u8>::empty(),
    }
}

/// The identifier bytes a reply carries (empty for NoOp).
pub open spec fn reply_id_bytes(r: MessageReply) -> Seq<u8> {
    match r {
        MessageReply::Fin(id) => bytes_view(id),
        MessageReply::Req(id) => bytes_view(id),
        MessageReply::Touch(id) => bytes_view(id),
        MessageReply::Nop => Seq::<u8>::empty(),
    }
}

/// The exact line-oriented command form of a reply: `"NOP\n"`, or
/// `"<VERB> " + id + "\n"` with the verb in `{FIN, REQ, TOUCH}`.
pub open spec fn reply_bytes(r: MessageReply) -> Seq<u8> {
    match r {
        MessageReply::Nop => nop_bytes(),
        _ => reply_verb(r) + seq![32u8] + reply_id_bytes(r) + seq![10u8],
    }
}

/// Handler is a trait that a type must implement to handle messages from a
/// consumer. The identifier carried by the returned reply must be a message
/// identifier, which is always 16 bytes.
pub trait Handler {
    /// This function is invoked when a `Consumer` receives a message. The
    /// consumer only ever hands over well-formed messages.
    fn handle_message(&self, message: &Message) -> (reply: MessageReply)
        requires
            message.wf(),
        ensures
            reply_wf(reply),
    ;
}

fn put_nop(dst: &mut BytesMut)
    requires
        bytes_view(*old(dst)).len() + 4 <= usize::MAX,
    ensures
        bytes_view(*final(dst)) == bytes_view(*old(dst)) + nop_bytes(),
{
    let tag: Vec<u8> = vec![78u8, 79u8, 80u8, 10u8];  // "NOP\n"
    bytes_extend(dst, tag.as_slice());
    assert(bytes_view(*dst) =~= bytes_view(*old(dst)) + nop_bytes());
}

fn put_fin(dst: &mut BytesMut, id: &BytesMut)
    requires
        bytes_view(*old(dst)).len() + 5 + bytes_view(*id).len() <= usize::MAX,
    ensures
        bytes_view(*final(dst)) == bytes_view(*old(dst)) + seq![70u8, 73u8, 78u8, 32u8]
            + bytes_view(*id) + seq![10u8],
{
    let verb: Vec<u8> = vec![70u8, 73u8, 78u8, 32u8];  // "FIN "
    bytes_extend(dst, verb.as_slice());
    bytes_extend_bytes(dst, id);
    let nl: Vec<u8> = vec![10u8];
    bytes_extend(dst, nl.as_slice());
    assert(bytes_view(*dst) =~= bytes_view(*old(dst)) + seq![70u8, 73u8, 78u8, 32u8]
        + bytes_view(*id) + seq![10u8]);
}

fn put_req(dst: &mut BytesMut, id: &BytesMut)
    requires
        bytes_view(*old(dst)).len() + 5 + bytes_view(*id).len() <= usize::MAX,
    ensures
        bytes_view(*final(dst)) == bytes_view(*old(dst)) + seq![82u8, 69u8, 81u8, 32u8]
            + bytes_view(*id) + seq![10u8],
{
    let verb: Vec<u8> = vec![82u8, 69u8, 81u8, 32u8];  // "REQ "
    bytes_extend(dst, verb.as_slice());
    bytes_extend_bytes(dst, id);
    let nl: Vec<u8> = vec![10u8];
    bytes_extend(dst, nl.as_slice());
    assert(bytes_view(*dst) =~= bytes_view(*old(dst)) + seq![82u8, 69u8, 81u8, 32u8]
        + bytes_view(*id) + seq![10u8]);
}

fn put_touch(dst: &mut BytesMut, id: &BytesMut)
    requires
        bytes_view(*old(dst)).len() + 7 + bytes_view(*id).len() <= usize::MAX,
    ensures
        bytes_view(*final(dst)) == bytes_view(*old(dst)) + seq![84u8, 79u8, 85u8, 67u8, 72u8, 32u8]
            + bytes_view(*id) + seq![10u8],
{
    let verb: Vec<u8> = vec![84u8, 79u8, 85u8, 67u8, 72u8, 32u8];  // "TOUCH "
    bytes_extend(dst, verb.as_slice());
    bytes_extend_bytes(dst, id);
    let nl: Vec<u8> = vec![10u8];
    bytes_extend(dst, nl.as_slice());
    assert(bytes_view(*dst) =~= bytes_view(*old(dst)) + seq![84u8, 79u8, 85u8, 67u8, 72u8, 32u8]
        + bytes_view(*id) + seq![10u8]);
}

/// NsqResponder is used to write replies back to nsqd.
pub struct NsqResponder;

impl Default for NsqResponder {
    fn default() -> (d: NsqResponder)
        ensures
            d == (NsqResponder),
    {
        NsqResponder
    }
}

impl NsqResponder {
    /// Append the command line for `item` to `dst`, growing the buffer ahead
    /// of the write when headroom is low. Encoding itself never fails.
    pub fn encode(&mut self, item: MessageReply, dst: &mut BytesMut) -> (r: NsqResult<()>)
        requires
            bytes_view(*old(dst)).len() + BUFFER_GROW + reply_bytes(item).len() <= usize::MAX,
        ensures
            r is Ok,
            bytes_view(*final(dst)) == bytes_view(*old(dst)) + reply_bytes(item),
    {
        if bytes_remaining_mut(dst) < SPACE_NEEDED {
            bytes_reserve(dst, BUFFER_GROW);
        }
        match item {
            MessageReply::Nop => put_nop(dst),
            MessageReply::Fin(id) => put_fin(dst, &id),
            MessageReply::Req(id) => put_req(dst, &id),
            MessageReply::Touch(id) => put_touch(dst, &id),
        }
        Ok(())
    }
}

/// The frame type tag of a payload: its first four bytes, big-endian.
pub open spec fn frame_type_of(p: Seq<u8>) -> int
    recommends
        p.len() >= 4,
{
    be_i32_int(p.take(4))
}

/// Whether a payload is a complete message frame.
pub open spec fn is_message_payload(p: Seq<u8>) -> bool {
    p.len() >= MESSAGE_HEADER_LEN && frame_type_of(p) == MESSAGE_FRAME_TYPE
}

/// The broker-assigned delivery timestamp of a message payload.
pub open spec fn message_ts_of(p: Seq<u8>) -> int
    recommends
        is_message_payload(p),
{
    be_i64_int(p.subrange(4, 12))
}

/// The delivery attempt count of a message payload.
pub open spec fn message_attempts_of(p: Seq<u8>) -> int
    recommends
        is_message_payload(p),
{
    be_u16_int(p.subrange(12, 14))
}

/// The 16 identifier bytes of a message payload.
pub open spec fn message_id_of(p: Seq<u8>) -> Seq<u8>
    recommends
        is_message_payload(p),
{
    p.subrange(14, 30)
}

/// The body bytes of a message payload: everything after the fixed header.
pub open spec fn message_body_of(p: Seq<u8>) -> Seq<u8>
    recommends
        is_message_payload(p),
{
    p.skip(30)
}

/// Whether a parsed message's fields are exactly those of the message frame
/// payload `p`: the big-endian timestamp and attempt count, the 16 identifier
/// bytes, and the body.
pub open spec fn message_fields_match(m: Message, p: Seq<u8>) -> bool {
    &&& m.spec_id() == message_id_of(p)
    &&& m.spec_body() == message_body_of(p)
    &&& m.spec_timestamp() as int == message_ts_of(p)
    &&& m.spec_attempts() as int == message_attempts_of(p)
}

/// One decoded frame, dispatched on its type tag. Only message frames are
/// acted upon; the other kinds are recognized so that the stream stays in
/// sync, and the consumer answers them with a NoOp.
pub enum Frame {
    /// A response frame (type tag 0), e.g. an acknowledgment or a heartbeat.
    Response(Vec<u8>),
    /// An error frame (type tag 1) from the broker.
    Error(Vec<u8>),
    /// A message frame (type tag 2), parsed into a [`Message`].
    Message(Message),
    /// A frame with any other type tag, kept with its payload.
    Unknown(i32, Vec<u8>),
}

/// Interpret one frame payload. The first four bytes are the frame type tag;
/// a message frame must be at least [`MESSAGE_HEADER_LEN`] bytes, and its
/// remaining fields are read in fixed order: 8-byte big-endian signed
/// timestamp, 2-byte big-endian attempt count, 16-byte identifier, and the
/// body. A payload too short for its fixed fields is a protocol violation.
pub fn parse_frame(payload: &Vec<u8>) -> (r: NsqResult<Frame>)
    ensures
        (r is Err) <==> (payload@.len() < 4 || (frame_type_of(payload@) == MESSAGE_FRAME_TYPE
            && payload@.len() < MESSAGE_HEADER_LEN)),
        r matches Err(e) ==> e is ProtocolParse,
        is_message_payload(payload@) ==> (r matches Ok(Frame::Message(m)) && m.wf()
            && message_fields_match(m, payload@)),
        (payload@.len() >= 4 && frame_type_of(payload@) == 0) ==> (r matches Ok(
            Frame::Response(b),
        ) && b@ == payload@.skip(4)),
        (payload@.len() >= 4 && frame_type_of(payload@) == 1) ==> (r matches Ok(Frame::Error(b))
            && b@ == payload@.skip(4)),
        (payload@.len() >= 4 && frame_type_of(payload@) != 0 && frame_type_of(payload@) != 1
            && frame_type_of(payload@) != MESSAGE_FRAME_TYPE) ==> (r matches Ok(
            Frame::Unknown(t, b),
        ) && t as int == frame_type_of(payload@) && b@ == payload@.skip(4)),
{
    let n = payload.len();
    if n < 4 {
        return Err(NsqError::ProtocolParse);
    }
    let frame_type = be_read_i32(payload.as_slice());
    proof {
        assert(payload@.take(4) =~= payload@.subrange(0, 4));
    }
    if frame_type == MESSAGE_FRAME_TYPE {
        if n < MESSAGE_HEADER_LEN {
            return Err(NsqError::ProtocolParse);
        }
        let ts_bytes = slice_subrange(payload.as_slice(), 4, 12);
        let timestamp = be_read_i64(ts_bytes);
        let attempt_bytes = slice_subrange(payload.as_slice(), 12, 14);
        let attempts = be_read_u16(attempt_bytes);
        let id = bytes_from_slice(slice_subrange(payload.as_slice(), 14, 30));
        let body = bytes_from_slice(slice_subrange(payload.as_slice(), 30, n));
        proof {
            assert(ts_bytes@.take(8) =~= payload@.subrange(4, 12));
            assert(attempt_bytes@.take(2) =~= payload@.subrange(12, 14));
            assert(payload@.subrange(30, n as int) =~= payload@.skip(30));
        }
        Ok(Frame::Message(Message { id, body, timestamp, attempts }))
    } else if frame_type == 0 {
        Ok(Frame::Response(slice_to_vec(slice_subrange(payload.as_slice(), 4, n))))
    } else if frame_type == 1 {
        Ok(Frame::Error(slice_to_vec(slice_subrange(payload.as_slice(), 4, n))))
    } else {
        Ok(Frame::Unknown(frame_type, slice_to_vec(slice_subrange(payload.as_slice(), 4, n))))
    }
}

/// Law: the encoded form of every reply is exactly its command line — the
/// literal `"NOP\n"` for NoOp, and `"<VERB> " + id + "\n"` with the verb in
/// `{FIN, REQ, TOUCH}` for the others.
pub proof fn lemma_reply_wire_shape(r: MessageReply)
    ensures
        r is Nop ==> reply_bytes(r) == seq![78u8, 79u8, 80u8, 10u8],
        !(r is Nop) ==> reply_bytes(r) == reply_verb(r) + seq![32u8] + reply_id_bytes(r)
            + seq![10u8],
{
}

/// The command line for a well-formed reply is never longer than the largest
/// one, `"TOUCH " + 16 id bytes + "\n"`.
pub proof fn lemma_reply_bytes_len(r: MessageReply)
    requires
        reply_wf(r),
    ensures
        reply_bytes(r).len() <= 23,
{
}

/// Law: encoding appends to the output buffer, so the bytes already written
/// are preserved when the buffer grows.
pub proof fn lemma_encode_preserves_prefix(pre: Seq<u8>, r: MessageReply)
    ensures
        (pre + reply_bytes(r)).take(pre.len() as int) == pre,
{
    assert((pre + reply_bytes(r)).take(pre.len() as int) =~= pre);
}

/// Law: for a valid message frame, a non-NoOp reply built from the parsed
/// identifier puts exactly the frame's 16 identifier bytes back on the wire,
/// right after the verb and its space.
pub proof fn lemma_id_round_trip(payload: Seq<u8>, r: MessageReply)
    requires
        is_message_payload(payload),
        !(r is Nop),
        reply_id_bytes(r) == message_id_of(payload),
    ensures
        reply_bytes(r).subrange(
            reply_verb(r).len() as int + 1,
            reply_verb(r).len() as int + 17,
        ) == payload.subrange(14, 30),
{
    assert(reply_bytes(r).subrange(reply_verb(r).len() as int + 1, reply_verb(r).len() as int + 17)
        =~= message_id_of(payload));
}

/// The bytes of a whole reply stream: each reply's command line, in order.
pub open spec fn concat_reply_bytes(rs: Seq<MessageReply>) -> Seq<u8>
    decreases rs.len(),
{
    if rs.len() == 0 {
        Seq::<u8>::empty()
    } else {
        reply_bytes(rs[0]) + concat_reply_bytes(rs.skip(1))
    }
}

/// Appending one reply to a stream appends its command line to the bytes.
pub proof fn lemma_concat_reply_bytes_push(rs: Seq<MessageReply>, r: MessageReply)
    ensures
        concat_reply_bytes(rs.push(r)) == concat_reply_bytes(rs) + reply_bytes(r),
    decreases rs.len(),
{
    if rs.len() == 0 {
        assert(rs.push(r)[0] == r);
        assert(rs.push(r).skip(1) =~= Seq::<MessageReply>::empty());
        assert(concat_reply_bytes(rs.push(r)) == reply_bytes(r) + concat_reply_bytes(
            Seq::<MessageReply>::empty(),
        ));
        assert(concat_reply_bytes(Seq::<MessageReply>::empty()) == Seq::<u8>::empty());
        assert(reply_bytes(r) + Seq::<u8>::empty() =~= Seq::<u8>::empty() + reply_bytes(r));
        assert(concat_reply_bytes(rs) == Seq::<u8>::empty());
    } else {
        assert(rs.push(r).skip(1) =~= rs.skip(1).push(r));
        lemma_concat_reply_bytes_push(rs.skip(1), r);
        assert(concat_reply_bytes(rs.push(r)) == reply_bytes(rs[0]) + (concat_reply_bytes(
            rs.skip(1),
        ) + reply_bytes(r)));
        assert(reply_bytes(rs[0]) + (concat_reply_bytes(rs.skip(1)) + reply_bytes(r)) =~= (
        reply_bytes(rs[0]) + concat_reply_bytes(rs.skip(1))) + reply_bytes(r));
    }
}

/// Whether a frame payload is acceptable to [`parse_frame`]: it is long
/// enough for its type tag, and a message frame is long enough for its fixed
/// header.
pub open spec fn frame_parses(p: Seq<u8>) -> bool {
    p.len() >= 4 && !(frame_type_of(p) == MESSAGE_FRAME_TYPE && p.len() < MESSAGE_HEADER_LEN)
}

} // verus!
