//! The byte layout of the container, and what a stream of bytes holds.

use vstd::prelude::*;
use crate::common::{le16, le32};
use crate::ivf::Error;

verus! {

/// Codec identifier of VP9, the four bytes `VP90` read as a little-endian number.
pub const VP9_FOURCC: u32 = 0x30395056;

/// Size of the file header in bytes.
pub const FILE_HEADER_SIZE: usize = 32;

/// Size of a frame header in bytes.
pub const FRAME_HEADER_SIZE: usize = 12;

/// The bytes `s` start with the magic tag `DKIF`.
pub open spec fn has_magic(s: Seq<u8>) -> bool {
    &&& s.len() >= 4
    &&& s[0] == 68
    &&& s[1] == 75
    &&& s[2] == 73
    &&& s[3] == 70
}

/// The codec identifier in the file header `s`.
pub open spec fn header_fourcc(s: Seq<u8>) -> int {
    le32(s[8], s[9], s[10], s[11])
}

/// The frame width in the file header `s`.
pub open spec fn header_width(s: Seq<u8>) -> int {
    le16(s[12], s[13])
}

/// The frame height in the file header `s`.
pub open spec fn header_height(s: Seq<u8>) -> int {
    le16(s[14], s[15])
}

/// Why a container with the bytes `s` cannot be opened, if it cannot. The
/// checks are made in this order: header length and magic tag, codec,
/// dimensions.
pub open spec fn header_error(s: Seq<u8>) -> Option<Error> {
    if s.len() < FILE_HEADER_SIZE || !has_magic(s) {
        Some(Error::FormatError)
    } else if header_fourcc(s) != VP9_FOURCC {
        Some(Error::UnsupportedCodec)
    } else if header_width(s) == 0 || header_height(s) == 0 {
        Some(Error::InvalidDimensions)
    } else {
        None
    }
}

/// The payload size that the frame header at the start of `s` declares.
pub open spec fn frame_size(s: Seq<u8>) -> int {
    le32(s[0], s[1], s[2], s[3])
}

/// The bytes `s` start with a whole frame: a header and as many payload bytes
/// as it declares.
pub open spec fn has_frame(s: Seq<u8>) -> bool {
    s.len() >= FRAME_HEADER_SIZE && frame_size(s) <= s.len() - FRAME_HEADER_SIZE
}

/// The payloads of the frames in `s`, in order, up to the first place where
/// no whole frame is left: there the stream ends, whatever follows.
pub open spec fn chunks(s: Seq<u8>) -> Seq<Seq<u8>>
    decreases s.len(),
{
    if has_frame(s) {
        let end = FRAME_HEADER_SIZE + frame_size(s);
        seq![s.subrange(FRAME_HEADER_SIZE as int, end)] + chunks(s.skip(end))
    } else {
        Seq::empty()
    }
}

/// `frame` is a whole frame that carries `payload`: a header that declares
/// the payload's size, and the payload behind it.
pub open spec fn is_frame_of(frame: Seq<u8>, payload: Seq<u8>) -> bool {
    &&& frame.len() == FRAME_HEADER_SIZE + payload.len()
    &&& frame_size(frame) == payload.len()
    &&& frame.skip(FRAME_HEADER_SIZE as int) == payload
}

/// `frames` are whole frames that carry `payloads`, one each and in order.
pub open spec fn are_frames_of(frames: Seq<Seq<u8>>, payloads: Seq<Seq<u8>>) -> bool {
    &&& frames.len() == payloads.len()
    &&& forall|i: int| 0 <= i < frames.len() ==> is_frame_of(#[trigger] frames[i], payloads[i])
}

/// A stream that starts with a whole frame yields that frame's payload first
/// and then what the rest of the stream yields.
pub proof fn lemma_chunks_step(frame: Seq<u8>, payload: Seq<u8>, rest: Seq<u8>)
    requires
        is_frame_of(frame, payload),
    ensures
        chunks(frame + rest) == seq![payload] + chunks(rest),
{
    let s = frame + rest;
    let end = FRAME_HEADER_SIZE + frame_size(s);
    assert(s[0] == frame[0] && s[1] == frame[1] && s[2] == frame[2] && s[3] == frame[3]);
    assert(end == frame.len());
    assert(s.subrange(FRAME_HEADER_SIZE as int, end) == payload);
    assert(s.skip(end) == rest);
}

/// Whole frames followed by bytes that hold no whole frame yield exactly the
/// frames' payloads, in order: the stream ends where the frames end.
pub proof fn lemma_chunks_of_frames(frames: Seq<Seq<u8>>, payloads: Seq<Seq<u8>>, rest: Seq<u8>)
    requires
        are_frames_of(frames, payloads),
        !has_frame(rest),
    ensures
        chunks(frames.flatten() + rest) == payloads,
    decreases frames.len(),
{
    if frames.len() == 0 {
        assert(frames.flatten() + rest == rest);
        assert(payloads == Seq::<Seq<u8>>::empty());
    } else {
        let tail = frames.drop_first();
        let tail_payloads = payloads.drop_first();
        assert(are_frames_of(tail, tail_payloads)) by {
            assert forall|i: int| 0 <= i < tail.len() implies is_frame_of(
                #[trigger] tail[i],
                tail_payloads[i],
            ) by {
                assert(is_frame_of(frames[i + 1], payloads[i + 1]));
            }
        }
        lemma_chunks_of_frames(tail, tail_payloads, rest);
        assert(is_frame_of(frames[0], payloads[0]));
        lemma_chunks_step(frames[0], payloads[0], tail.flatten() + rest);
        assert(frames.flatten() + rest == frames[0] + (tail.flatten() + rest));
        assert(seq![payloads[0]] + tail_payloads == payloads);
    }
}

/// A container of whole frames followed by the true end of the file yields
/// each frame's payload, in order, and nothing else.
pub proof fn lemma_whole_frames(frames: Seq<Seq<u8>>, payloads: Seq<Seq<u8>>)
    requires
        are_frames_of(frames, payloads),
    ensures
        chunks(frames.flatten()) == payloads,
{
    lemma_chunks_of_frames(frames, payloads, Seq::empty());
    assert(frames.flatten() + Seq::<u8>::empty() == frames.flatten());
}

/// A frame header that declares more payload than the stream still holds
/// ends the stream: the frames before it are yielded, and nothing of the
/// truncated frame or of what follows it.
pub proof fn lemma_truncated_frame(frames: Seq<Seq<u8>>, payloads: Seq<Seq<u8>>, rest: Seq<u8>)
    requires
        are_frames_of(frames, payloads),
        rest.len() >= FRAME_HEADER_SIZE,
        frame_size(rest) > rest.len() - FRAME_HEADER_SIZE,
    ensures
        chunks(rest) == Seq::<Seq<u8>>::empty(),
        chunks(frames.flatten() + rest) == payloads,
{
    lemma_chunks_of_frames(frames, payloads, rest);
}

} // verus!
