//! The frame decoder: turns a continuous byte stream into frame payloads.
//!
//! On the wire each frame is a 4-byte big-endian unsigned length prefix
//! followed by exactly that many payload bytes; the prefix counts only the
//! payload. A clean close of the stream between frames is end of stream; a
//! close in the middle of a frame, or a length prefix beyond the configured
//! maximum, is a framing error.

use vstd::prelude::*;

use crate::errors::NsqError;
use crate::errors::NsqResult;
use crate::wire::be_u32_int;
use crate::wire::read_be_u32;
use vstd::slice::slice_subrange;
use vstd::slice::slice_to_vec;

verus! {

/// The largest payload a single frame may announce. A longer prefix is
/// treated as a framing error rather than an unbounded allocation.
pub const MAX_FRAME_LENGTH: usize = 8 * 1024 * 1024;

/// The payloads of a well-formed, fully delivered byte stream: `None` when
/// the stream ends inside a frame or a prefix announces more than
/// [`MAX_FRAME_LENGTH`] bytes.
pub open spec fn split_frames(s: Seq<u8>) -> Option<Seq<Seq<u8>>>
    decreases s.len(),
{
    if s.len() == 0 {
        Some(Seq::<Seq<u8>>::empty())
    } else if s.len() < 4 {
        None
    } else {
        let l = be_u32_int(s.take(4));
        if l > MAX_FRAME_LENGTH as int {
            None
        } else if s.len() < 4 + l {
            None
        } else {
            match split_frames(s.skip(4 + l)) {
                Some(rest) => Some(seq![s.subrange(4, 4 + l)] + rest),
                None => None,
            }
        }
    }
}

/// What one decoding step found at the front of the buffered bytes.
pub enum FrameStep {
    /// A complete frame: its payload, and how many buffered bytes it spans,
    /// length prefix included.
    Complete(Vec<u8>, usize),
    /// The buffered bytes end before a complete frame; more input is needed.
    Incomplete,
}

/// Decode one frame from `buf` starting at `at`. Returns the payload and the
/// number of bytes consumed, `Incomplete` when the bytes at `at` end before a
/// complete frame, and a framing error when the length prefix announces more
/// than [`MAX_FRAME_LENGTH`] bytes.
pub fn decode_frame(buf: &[u8], at: usize) -> (r: NsqResult<FrameStep>)
    requires
        at <= buf@.len(),
    ensures
        buf@.len() - at < 4 ==> r matches Ok(FrameStep::Incomplete),
        (buf@.len() - at >= 4 && be_u32_int(buf@.subrange(at as int, at as int + 4))
            > MAX_FRAME_LENGTH as int) ==> r matches Err(NsqError::Framing),
        (buf@.len() - at >= 4 && be_u32_int(buf@.subrange(at as int, at as int + 4))
            <= MAX_FRAME_LENGTH as int && buf@.len() - at < 4 + be_u32_int(
            buf@.subrange(at as int, at as int + 4),
        )) ==> r matches Ok(FrameStep::Incomplete),
        (buf@.len() - at >= 4 && be_u32_int(buf@.subrange(at as int, at as int + 4))
            <= MAX_FRAME_LENGTH as int && buf@.len() - at >= 4 + be_u32_int(
            buf@.subrange(at as int, at as int + 4),
        )) ==> (r matches Ok(FrameStep::Complete(p, c)) && p@ == buf@.subrange(
            at as int + 4,
            at as int + 4 + be_u32_int(buf@.subrange(at as int, at as int + 4)),
        ) && c as int == 4 + be_u32_int(buf@.subrange(at as int, at as int + 4))),
{
    let n = buf.len();
    if n - at < 4 {
        return Ok(FrameStep::Incomplete);
    }
    let announced = read_be_u32(buf, at);
    if announced > MAX_FRAME_LENGTH as u32 {
        return Err(NsqError::Framing);
    }
    let l = announced as usize;
    if n - at - 4 < l {
        return Ok(FrameStep::Incomplete);
    }
    let payload = slice_to_vec(slice_subrange(buf, at + 4, at + 4 + l));
    Ok(FrameStep::Complete(payload, 4 + l))
}

/// Decode a fully delivered stream into its frame payloads. The stream must
/// end exactly on a frame boundary; a stream that ends after a length prefix
/// but before the full payload, or inside a prefix, is rejected with a
/// framing error, as is a prefix beyond [`MAX_FRAME_LENGTH`].
pub fn decode_stream(stream: &Vec<u8>) -> (r: NsqResult<Vec<Vec<u8>>>)
    ensures
        (r is Ok) <==> (split_frames(stream@) is Some),
        r matches Ok(frames) ==> Some(frames.deep_view()) == split_frames(stream@),
        r matches Err(e) ==> e is Framing,
{
    let n = stream.len();
    let mut at: usize = 0;
    let mut frames: Vec<Vec<u8>> = Vec::new();
    proof {
        assert(stream@.skip(0) =~= stream@);
        assert(frames.deep_view() =~~= Seq::<Seq<u8>>::empty());
        if split_frames(stream@) is Some {
            let rest = split_frames(stream@).unwrap();
            assert(Seq::<Seq<u8>>::empty() + rest =~= rest);
        }
    }
    while at < n
        invariant
            n == stream@.len(),
            at <= n,
            (split_frames(stream@) is Some) <==> (split_frames(stream@.skip(at as int)) is Some),
            split_frames(stream@.skip(at as int)) matches Some(rest) ==> split_frames(stream@)
                == Some(frames.deep_view() + rest),
        decreases n - at,
    {
        let step = decode_frame(stream.as_slice(), at);
        match step {
            Ok(FrameStep::Complete(payload, consumed)) => {
                proof {
                    let tail = stream@.skip(at as int);
                    assert(tail.take(4) =~= stream@.subrange(at as int, at as int + 4));
                    assert(tail.subrange(4, consumed as int) =~= stream@.subrange(
                        at as int + 4,
                        at as int + consumed,
                    ));
                    assert(tail.skip(consumed as int) =~= stream@.skip(at as int + consumed));
                    assert(split_frames(tail) matches Some(rest) ==> rest == seq![payload@]
                        + split_frames(stream@.skip(at as int + consumed)).unwrap());
                }
                let ghost prev = frames.deep_view();
                frames.push(payload);
                proof {
                    assert(frames.deep_view() =~~= prev + seq![payload@]);
                    if split_frames(stream@.skip(at as int + consumed)) is Some {
                        let rest2 = split_frames(stream@.skip(at as int + consumed)).unwrap();
                        assert(prev + seq![payload@] + rest2 =~= prev + (seq![payload@] + rest2));
                    }
                }
                at = at + consumed;
            },
            Ok(FrameStep::Incomplete) => {
                // The stream ends inside a frame: a framing error.
                return Err(NsqError::Framing);
            },
            Err(e) => {
                return Err(e);
            },
        }
    }
    proof {
        assert(stream@.skip(n as int) =~= Seq::<u8>::empty());
        assert(split_frames(stream@) == Some(frames.deep_view() + Seq::<Seq<u8>>::empty()));
        assert(frames.deep_view() + Seq::<Seq<u8>>::empty() =~= frames.deep_view());
    }
    Ok(frames)
}

/// Law: a stream that ends after a length prefix but before the full payload
/// has arrived is not a well-formed stream, so the decoder rejects it.
pub proof fn lemma_truncated_stream_rejected(s: Seq<u8>)
    requires
        s.len() >= 4,
        be_u32_int(s.take(4)) <= MAX_FRAME_LENGTH as int,
        s.len() < 4 + be_u32_int(s.take(4)),
    ensures
        split_frames(s) is None,
{
}

/// A well-formed stream spends at least four bytes (the length prefix) on
/// each of its frames.
pub proof fn lemma_split_frames_count(s: Seq<u8>)
    requires
        split_frames(s) is Some,
    ensures
        4 * split_frames(s).unwrap().len() <= s.len(),
    decreases s.len(),
{
    if s.len() != 0 {
        let l = be_u32_int(s.take(4));
        lemma_split_frames_count(s.skip(4 + l));
    }
}

} // verus!
