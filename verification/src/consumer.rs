//! The consumer module contains a type that connects to an `nsqd` instance to
//! receive messages and answer them.
//!
//! The consumer here is the protocol engine: it owns the handshake command
//! bytes, the frame-by-frame read loop, and the reply encoding, as one
//! function from the connection's inbound bytes to its outbound bytes. The
//! embedding program owns the socket: it reports the outcome of the TCP
//! connect, delivers the inbound bytes, and writes the outbound bytes.

use vstd::prelude::*;


use crate::buffer::bytes_as_slice;
use crate::buffer::bytes_extend;
use crate::buffer::bytes_new;
use crate::buffer::bytes_view;
use crate::codec::decode_stream;
use crate::codec::lemma_split_frames_count;
use crate::codec::split_frames;
use crate::config::NsqConfig;
use crate::errors::NsqError;
use crate::errors::NsqResult;
use crate::message::concat_reply_bytes;
use crate::message::frame_parses;
use crate::message::is_message_payload;
use crate::message::lemma_concat_reply_bytes_push;
use crate::message::lemma_reply_bytes_len;
use crate::message::message_fields_match;
use crate::message::parse_frame;
use crate::message::Message;
use crate::message::reply_wf;
use crate::message::Frame;
use crate::message::Handler;
use crate::message::MessageReply;
use crate::message::NsqResponder;
use crate::wire::dec_digits;
use crate::wire::lemma_dec_digits_len;
use crate::wire::write_decimal;
use vstd::slice::slice_to_vec;
use vstd::string::StringSliceAdditionalSpecFns;

verus! {

/// Where a consumer stands in its life cycle. `connect_to_nsqd` moves it from
/// `Idle` to `Connected`; `begin_consuming` walks it through `Subscribing`
/// (handshake) and `Running` (read loop) to `Closed`.
#[derive(Clone, Copy, PartialEq, Eq, Structural, Debug)]
pub enum ConnState {
    /// Constructed; no connection yet.
    Idle,
    /// The transport is connected; the handshake has not started.
    Connected,
    /// The handshake commands are being produced.
    Subscribing,
    /// The steady read/dispatch/reply cycle.
    Running,
    /// Terminal: the stream ended or a protocol error surfaced.
    Closed,
}

/// The exact bytes of the protocol-version magic, `"  V2"`.
pub open spec fn magic_bytes() -> Seq<u8> {
    seq![32u8, 32u8, 86u8, 50u8]
}

/// The exact bytes of the subscribe command, `"SUB <topic> <channel>\n"`.
pub open spec fn sub_line_bytes(topic: Seq<u8>, channel: Seq<u8>) -> Seq<u8> {
    seq![83u8, 85u8, 66u8, 32u8] + topic + seq![32u8] + channel + seq![10u8]
}

/// The exact bytes of the initial ready-count command, `"RDY <count>\n"`.
pub open spec fn rdy_line_bytes(count: int) -> Seq<u8> {
    seq![82u8, 68u8, 89u8, 32u8] + dec_digits(count) + seq![10u8]
}

/// The three handshake commands in their required order: the magic, the
/// subscribe line, the ready-count line.
pub open spec fn handshake_bytes(topic: Seq<u8>, channel: Seq<u8>, count: int) -> Seq<u8> {
    magic_bytes() + sub_line_bytes(topic, channel) + rdy_line_bytes(count)
}

/// The protocol-version magic that opens every connection.
pub fn magic_command() -> (v: Vec<u8>)
    ensures
        v@ == magic_bytes(),
{
    let v: Vec<u8> = vec![32u8, 32u8, 86u8, 50u8];  // "  V2"
    assert(v@ =~= magic_bytes());
    v
}

/// A reply the handler `h` could have produced for the message parsed out of
/// `payload`: it satisfies `handle_message`'s contract applied to a message
/// whose fields are exactly the payload's parsed fields.
pub open spec fn handler_answers<H: Handler>(h: H, payload: Seq<u8>, reply: MessageReply) -> bool {
    exists|m: Message|
        #[trigger] message_fields_match(m, payload) && call_ensures(
            H::handle_message,
            (&h, &m),
            reply,
        )
}

/// How a reply stream answers a frame stream for the given handler: one reply
/// per frame, in order, each well formed; every frame that is not a message
/// frame is answered with a NoOp, a message frame's reply is one the handler
/// could have returned for that frame's parsed message, and with no handler
/// registered every frame is answered with a NoOp.
pub open spec fn replies_match<H: Handler>(
    handler: Option<H>,
    fs: Seq<Seq<u8>>,
    rs: Seq<MessageReply>,
) -> bool {
    &&& rs.len() == fs.len()
    &&& forall|j: int| 0 <= j < fs.len() ==> reply_wf(#[trigger] rs[j])
    &&& forall|j: int| 0 <= j < fs.len() && !is_message_payload(#[trigger] fs[j]) ==> rs[j]
        is Nop
    &&& handler is None ==> forall|j: int|
        0 <= j < fs.len() && is_message_payload(#[trigger] fs[j]) ==> rs[j] is Nop
    &&& handler matches Some(h) ==> forall|j: int|
        0 <= j < fs.len() && is_message_payload(#[trigger] fs[j]) ==> handler_answers(
            h,
            fs[j],
            rs[j],
        )
}

/// The outbound bytes of a successful run: the handshake, then the command
/// lines of a reply stream that answers the frames in order on behalf of the
/// given handler.
pub open spec fn run_output_ok<H: Handler>(
    handler: Option<H>,
    topic: Seq<u8>,
    channel: Seq<u8>,
    count: int,
    fs: Seq<Seq<u8>>,
    out: Seq<u8>,
) -> bool {
    exists|rs: Seq<MessageReply>|
        replies_match(handler, fs, rs) && out == handshake_bytes(topic, channel, count)
            + concat_reply_bytes(rs)
}

/// `Consumer` represents a long-lived connection to an nsqd instance that can
/// read messages and reply depending on a handler.
pub struct Consumer<H: Handler> {
    channel: Vec<u8>,
    config: NsqConfig,
    handler: Option<H>,
    state: ConnState,
    topic: Vec<u8>,
}

impl<H: Handler> Consumer<H> {
    /// The topic name's bytes, for use in specifications.
    pub closed spec fn spec_topic(&self) -> Seq<u8> {
        self.topic@
    }

    /// The channel name's bytes, for use in specifications.
    pub closed spec fn spec_channel(&self) -> Seq<u8> {
        self.channel@
    }

    /// The life-cycle state, for use in specifications.
    pub closed spec fn spec_state(&self) -> ConnState {
        self.state
    }

    /// The registered handler, for use in specifications.
    pub closed spec fn spec_handler(&self) -> Option<H> {
        self.handler
    }

    /// Whether a handler has been registered, for use in specifications.
    pub open spec fn spec_has_handler(&self) -> bool {
        self.spec_handler() is Some
    }

    /// The configured max in flight value, for use in specifications.
    pub closed spec fn spec_max_in_flight(&self) -> usize {
        self.config.spec_max_in_flight()
    }

    /// Given a topic, channel, and config, set up a new Consumer instance.
    pub fn new(topic: &str, channel: &str, config: NsqConfig) -> (c: Consumer<H>)
        ensures
            c.spec_topic() == topic.spec_bytes(),
            c.spec_channel() == channel.spec_bytes(),
            c.spec_state() is Idle,
            c.spec_handler() is None,
            c.spec_max_in_flight() == config.spec_max_in_flight(),
    {
        Consumer {
            channel: slice_to_vec(channel.as_bytes()),
            config,
            handler: None,
            state: ConnState::Idle,
            topic: slice_to_vec(topic.as_bytes()),
        }
    }

    /// Record the outcome of the transport-level connect to a single nsqd
    /// instance. The embedding program opens the TCP connection and reports
    /// here whether that succeeded; on success the consumer is `Connected`,
    /// on failure it is left as it was and the error is handed back.
    pub fn connect_to_nsqd(&mut self, outcome: NsqResult<()>) -> (r: NsqResult<()>)
        ensures
            outcome is Ok <==> r is Ok,
            outcome is Ok ==> final(self).spec_state() is Connected,
            outcome matches Err(e) ==> *final(self) == *old(self) && (r matches Err(e2) && e2
                == e),
            final(self).spec_topic() == old(self).spec_topic(),
            final(self).spec_channel() == old(self).spec_channel(),
            final(self).spec_handler() == old(self).spec_handler(),
            final(self).spec_max_in_flight() == old(self).spec_max_in_flight(),
    {
        match outcome {
            Ok(()) => {
                self.state = ConnState::Connected;
                Ok(())
            },
            Err(e) => Err(e),
        }
    }

    /// Add a handler for messages that are consumed. Must be called before
    /// `begin_consuming`; at most one handler is active per consumer.
    pub fn add_handler(&mut self, handler: H)
        ensures
            final(self).spec_handler() == Some(handler),
            final(self).spec_state() == old(self).spec_state(),
            final(self).spec_topic() == old(self).spec_topic(),
            final(self).spec_channel() == old(self).spec_channel(),
            final(self).spec_max_in_flight() == old(self).spec_max_in_flight(),
    {
        self.handler = Some(handler);
    }

    /// The subscribe command for this consumer's topic and channel.
    pub fn subscribe_command(&self) -> (v: Vec<u8>)
        ensures
            v@ == sub_line_bytes(self.spec_topic(), self.spec_channel()),
    {
        let mut v: Vec<u8> = vec![83u8, 85u8, 66u8, 32u8];  // "SUB "
        v.extend_from_slice(self.topic.as_slice());
        v.push(32u8);
        v.extend_from_slice(self.channel.as_slice());
        v.push(10u8);
        assert(v@ =~= sub_line_bytes(self.spec_topic(), self.spec_channel()));
        v
    }

    /// The initial ready-count command, derived from the configuration's max
    /// in flight value.
    pub fn ready_command(&self) -> (v: Vec<u8>)
        ensures
            v@ == rdy_line_bytes(self.spec_max_in_flight() as int),
            v@.len() <= 25,
    {
        let mut v: Vec<u8> = vec![82u8, 68u8, 89u8, 32u8];  // "RDY "
        let count = self.config.max_in_flight();
        let mut digits = write_decimal(count as u64);
        proof {
            lemma_dec_digits_len(count as int);
        }
        v.append(&mut digits);
        v.push(10u8);
        assert(v@ =~= rdy_line_bytes(self.spec_max_in_flight() as int));
        v
    }

    /// Answer one decoded frame payload: a message frame goes to the
    /// registered handler (or is answered with a NoOp when none is set), and
    /// every other frame is answered with a NoOp. Fails only when the payload
    /// itself violates the protocol.
    pub fn respond_to_frame(&self, payload: &Vec<u8>) -> (r: NsqResult<MessageReply>)
        ensures
            (r is Ok) <==> frame_parses(payload@),
            r matches Err(e) ==> e is ProtocolParse,
            r matches Ok(reply) ==> reply_wf(reply),
            (frame_parses(payload@) && !is_message_payload(payload@)) ==> (r matches Ok(reply)
                && reply is Nop),
            (is_message_payload(payload@) && self.spec_handler() is None) ==> (r matches Ok(
                reply,
            ) && reply is Nop),
            self.spec_handler() matches Some(h) ==> (is_message_payload(payload@) ==> (r matches Ok(
                reply,
            ) && handler_answers(h, payload@, reply))),
    {
        match parse_frame(payload) {
            Ok(Frame::Message(msg)) => {
                match &self.handler {
                    Some(h) => {
                        let reply = h.handle_message(&msg);
                        proof {
                            assert(message_fields_match(msg, payload@));
                            assert(call_ensures(H::handle_message, (h, &msg), reply));
                        }
                        Ok(reply)
                    },
                    None => Ok(MessageReply::Nop),
                }
            },
            Ok(_) => {
                // Responses (heartbeats among them), broker errors and
                // unknown frames are consumed to keep the stream in sync and
                // answered with a NoOp.
                Ok(MessageReply::Nop)
            },
            Err(e) => Err(e),
        }
    }

    /// Start consuming from nsqd. This function moves the consumer and runs
    /// the whole connection: it fails with `InvalidConn` before touching
    /// anything when no connection was made; otherwise it emits the handshake
    /// commands, then decodes `inbound` (the bytes the broker sent until it
    /// closed the stream) frame by frame, dispatches each message frame to
    /// the handler, answers every other frame with a NoOp, and returns the
    /// complete outbound byte stream. A truncated or oversized frame ends the
    /// run with a framing error, a message frame shorter than its fixed
    /// header with a parse error.
    pub fn begin_consuming(self, inbound: &Vec<u8>) -> (r: NsqResult<Vec<u8>>)
        requires
            self.spec_topic().len() + self.spec_channel().len() + 6 * inbound@.len() + 4096
                <= usize::MAX,
        ensures
            !(self.spec_state() is Connected) ==> r matches Err(NsqError::InvalidConn),
            (self.spec_state() is Connected && split_frames(inbound@) is None) ==> r matches Err(
                NsqError::Framing,
            ),
            self.spec_state() is Connected ==> (split_frames(inbound@) matches Some(fs) ==> ((
            exists|i: int| 0 <= i < fs.len() && !frame_parses(#[trigger] fs[i])) ==> r matches Err(
                NsqError::ProtocolParse,
            ))),
            self.spec_state() is Connected ==> (split_frames(inbound@) matches Some(fs) ==> ((
            forall|i: int| 0 <= i < fs.len() ==> frame_parses(#[trigger] fs[i])) ==> (r matches Ok(
                out,
            ) && run_output_ok(
                self.spec_handler(),
                self.spec_topic(),
                self.spec_channel(),
                self.spec_max_in_flight() as int,
                fs,
                out@,
            )))),
    {
        match self.state {
            ConnState::Connected => self.read_loop(inbound),
            _ => Err(NsqError::InvalidConn),
        }
    }

    /// The run itself: handshake, then decode, dispatch and reply in order.
    #[verifier::loop_isolation(false)]
    fn read_loop(self, inbound: &Vec<u8>) -> (r: NsqResult<Vec<u8>>)
        requires
            self.spec_state() is Connected,
            self.spec_topic().len() + self.spec_channel().len() + 6 * inbound@.len() + 4096
                <= usize::MAX,
        ensures
            split_frames(inbound@) is None ==> r matches Err(NsqError::Framing),
            split_frames(inbound@) matches Some(fs) ==> ((exists|i: int|
                0 <= i < fs.len() && !frame_parses(#[trigger] fs[i])) ==> r matches Err(
                NsqError::ProtocolParse,
            )),
            split_frames(inbound@) matches Some(fs) ==> ((forall|i: int|
                0 <= i < fs.len() ==> frame_parses(#[trigger] fs[i])) ==> (r matches Ok(out)
                && run_output_ok(
                self.spec_handler(),
                self.spec_topic(),
                self.spec_channel(),
                self.spec_max_in_flight() as int,
                fs,
                out@,
            ))),
    {
        let mut me = self;
        let ghost hs = handshake_bytes(
            me.topic@,
            me.channel@,
            me.config.spec_max_in_flight() as int,
        );

        // The handshake, strictly in order: magic, subscribe, ready count.
        me.state = ConnState::Subscribing;
        let mut out = bytes_new();
        let magic = magic_command();
        bytes_extend(&mut out, magic.as_slice());
        let sub = me.subscribe_command();
        bytes_extend(&mut out, sub.as_slice());
        let rdy = me.ready_command();
        bytes_extend(&mut out, rdy.as_slice());
        proof {
            assert(bytes_view(out) =~= hs);
            assert(hs.len() <= 35 + me.topic@.len() + me.channel@.len());
        }

        // Everything the broker sent, split into frame payloads.
        let frames = match decode_stream(inbound) {
            Ok(frames) => frames,
            Err(e) => {
                return Err(e);
            },
        };
        proof {
            lemma_split_frames_count(inbound@);
        }
        let ghost fs = frames.deep_view();

        me.state = ConnState::Running;
        let mut responder = NsqResponder::default();
        let ghost mut rs: Seq<MessageReply> = Seq::empty();
        let n = frames.len();
        let mut i: usize = 0;
        while i < n
            invariant
                i <= n,
                rs.len() == i,
                forall|j: int| 0 <= j < i ==> reply_wf(#[trigger] rs[j]),
                forall|j: int| 0 <= j < i && !is_message_payload(#[trigger] fs[j]) ==> rs[j]
                    is Nop,
                me.spec_handler() is None ==> forall|j: int|
                    0 <= j < i && is_message_payload(#[trigger] fs[j]) ==> rs[j] is Nop,
                me.spec_handler() matches Some(h) ==> forall|j: int|
                    0 <= j < i && is_message_payload(#[trigger] fs[j]) ==> handler_answers(
                        h,
                        fs[j],
                        rs[j],
                    ),
                forall|j: int| 0 <= j < i ==> frame_parses(#[trigger] fs[j]),
                bytes_view(out) == hs + concat_reply_bytes(rs),
                concat_reply_bytes(rs).len() <= 23 * i,
            decreases n - i,
        {
            let payload: &Vec<u8> = &frames[i];
            proof {
                assert(payload@ =~= fs[i as int]);
            }
            let reply = match me.respond_to_frame(payload) {
                Ok(reply) => reply,
                Err(e) => {
                    return Err(e);
                },
            };
            proof {
                lemma_reply_bytes_len(reply);
                assert(23 * i + 23 <= 23 * n);
                assert(23 * n <= 6 * inbound@.len()) by {
                    assert(4 * n <= inbound@.len());
                };
            }
            let enc = responder.encode(reply, &mut out);
            match enc {
                Ok(()) => {},
                Err(e) => {
                    return Err(e);
                },
            }
            proof {
                lemma_concat_reply_bytes_push(rs, reply);
                rs = rs.push(reply);
            }
            i = i + 1;
        }
        me.state = ConnState::Closed;
        let v = slice_to_vec(bytes_as_slice(&out));
        proof {
            assert(me.spec_handler() == self.spec_handler());
            assert(replies_match(self.spec_handler(), fs, rs));
            assert(v@ == hs + concat_reply_bytes(rs));
        }
        Ok(v)
    }
}

} // verus!
