//! The three frame layouts of the wire protocol and the specification of
//! how a frame is pulled off the front of a byte stream.
use vstd::prelude::*;

use crate::compress::zlib_inflate_of;
use crate::var_int::{
    lemma_varint_round_trip, varint_bytes, varint_parse_len, varint_parsed_value, varint_size,
};
use crate::MAX_PACKET_SIZE;

verus! {

/// A fatal framing fault; any of these closes the connection.
#[derive(Clone, Copy, PartialEq, Eq, Structural, Debug)]
pub enum DecodeError {
    /// The announced frame length is outside `0 .. 2^21`.
    FrameTooLarge,
    /// A VarInt field of the framing layer is malformed or truncated.
    BadVarInt,
    /// The compressed body is not a usable zlib stream.
    Zlib,
    /// The decompressed body is shorter than the announced data length.
    InconsistentLength,
}

/// What the decoder finds at the front of its buffer.
#[verifier::ext_equal]
pub enum FrameParse {
    /// More bytes are needed; nothing may be consumed.
    NeedMore,
    /// The stream is fatally malformed.
    Bad(DecodeError),
    /// One complete frame: its id, its body, and the buffer bytes it occupied.
    Frame { id: i32, body: Seq<u8>, used: int },
}

/// A frame's content before framing: the id's VarInt followed by the payload.
pub open spec fn inner_bytes(id: i32, payload: Seq<u8>) -> Seq<u8> {
    varint_bytes(id) + payload
}

/// An uncompressed frame: the content's length, then the content.
pub open spec fn frame_plain(id: i32, payload: Seq<u8>) -> Seq<u8>
    recommends
        varint_size(id) + payload.len() < MAX_PACKET_SIZE,
{
    varint_bytes((varint_size(id) + payload.len()) as i32) + inner_bytes(id, payload)
}

/// A compressed-mode frame kept stored: the outer length, a zero marker in
/// the data-length slot, then the plain content.
pub open spec fn frame_stored(id: i32, payload: Seq<u8>) -> Seq<u8>
    recommends
        1 + varint_size(id) + payload.len() < MAX_PACKET_SIZE,
{
    varint_bytes((1 + varint_size(id) + payload.len()) as i32) + varint_bytes(0) + inner_bytes(
        id,
        payload,
    )
}

/// A compressed-mode frame that was deflated: the outer length, the
/// content's uncompressed length, then the zlib bytes `z` of the content.
pub open spec fn frame_deflated(id: i32, payload: Seq<u8>, z: Seq<u8>) -> Seq<u8>
    recommends
        varint_size(id) + payload.len() <= i32::MAX,
        varint_size((varint_size(id) + payload.len()) as i32) + z.len() < MAX_PACKET_SIZE,
{
    let data_len = varint_size(id) + payload.len();
    varint_bytes((varint_size(data_len as i32) + z.len()) as i32) + varint_bytes(data_len as i32)
        + z
}

/// The content of a complete frame: its id VarInt, then the body. A frame
/// whose content holds no complete id is malformed.
pub open spec fn decode_inner(content: Seq<u8>, used: int) -> FrameParse {
    let idlen = varint_parse_len(content);
    if idlen <= 0 {
        FrameParse::Bad(DecodeError::BadVarInt)
    } else {
        FrameParse::Frame {
            id: varint_parsed_value(content),
            body: content.skip(idlen),
            used: used,
        }
    }
}

/// The content of a complete compressed-mode frame: the data length, then
/// either the stored content (length zero) or a zlib stream that must
/// inflate to exactly that many bytes. A stream that inflates short is
/// `InconsistentLength`; one that does not inflate within bounds is `Zlib`.
pub open spec fn decode_compressed(content: Seq<u8>, used: int) -> FrameParse {
    let dlen_len = varint_parse_len(content);
    if dlen_len <= 0 {
        FrameParse::Bad(DecodeError::BadVarInt)
    } else {
        let dlen = varint_parsed_value(content);
        let rest = content.skip(dlen_len);
        if dlen == 0 {
            decode_inner(rest, used)
        } else if dlen < 0 {
            FrameParse::Bad(DecodeError::InconsistentLength)
        } else {
            match zlib_inflate_of(rest) {
                Some(inner) => {
                    if inner.len() == dlen {
                        decode_inner(inner, used)
                    } else if inner.len() < dlen {
                        FrameParse::Bad(DecodeError::InconsistentLength)
                    } else {
                        FrameParse::Bad(DecodeError::Zlib)
                    }
                },
                None => FrameParse::Bad(DecodeError::Zlib),
            }
        }
    }
}

/// One frame at the front of the stream `s`: the length prefix, then the
/// frame's bytes, read under the current compression mode. An announced
/// length outside `0 .. 2^21` is fatal; a stream that merely ends early
/// asks for more bytes.
pub open spec fn decode_frame(compression: bool, s: Seq<u8>) -> FrameParse {
    let plen = varint_parse_len(s);
    if plen == -1 {
        FrameParse::Bad(DecodeError::BadVarInt)
    } else if plen == 0 {
        FrameParse::NeedMore
    } else {
        let len = varint_parsed_value(s);
        if !(0 <= len < MAX_PACKET_SIZE) {
            FrameParse::Bad(DecodeError::FrameTooLarge)
        } else if s.len() < plen + len {
            FrameParse::NeedMore
        } else {
            let content = s.subrange(plen, plen + len);
            if compression {
                decode_compressed(content, plen + len)
            } else {
                decode_inner(content, plen + len)
            }
        }
    }
}

/// The frames decodable from the front of a byte stream, one after the
/// other, until the bytes run short, go bad, or run out. The decoder's
/// buffer is always the concatenation of what was queued, so this is
/// what any chunking of the same stream yields, in this order.
pub open spec fn decoded_stream(compression: bool, s: Seq<u8>) -> Seq<(i32, Seq<u8>)>
    decreases s.len(),
{
    match decode_frame(compression, s) {
        FrameParse::Frame { id, body, used } => {
            if 0 < used <= s.len() {
                seq![(id, body)] + decoded_stream(compression, s.skip(used))
            } else {
                Seq::empty()
            }
        },
        _ => Seq::empty(),
    }
}

/// Decoding an uncompressed frame behind any suffix yields its id and
/// payload and consumes exactly the frame.
pub proof fn lemma_frame_plain_round_trip(id: i32, payload: Seq<u8>, rest: Seq<u8>)
    requires
        varint_size(id) + payload.len() < MAX_PACKET_SIZE,
    ensures
        decode_frame(false, frame_plain(id, payload) + rest) == (FrameParse::Frame {
            id,
            body: payload,
            used: frame_plain(id, payload).len() as int,
        }),
{
    let len = varint_size(id) + payload.len();
    let inner = inner_bytes(id, payload);
    let s = frame_plain(id, payload) + rest;
    assert(s =~= varint_bytes(len as i32) + (inner + rest));
    lemma_varint_round_trip(len as i32, inner + rest);
    let plen = varint_parse_len(s);
    assert(plen == varint_size(len as i32));
    assert(varint_parsed_value(s) == len as i32);
    assert(s.subrange(plen, plen + len) =~= inner);
    lemma_varint_round_trip(id, payload);
    assert(inner.skip(varint_size(id)) =~= payload);
    assert(decode_inner(inner, plen + len) =~= (FrameParse::Frame {
        id,
        body: payload,
        used: frame_plain(id, payload).len() as int,
    }));
}

/// Decoding a stored compressed-mode frame behind any suffix yields its id
/// and payload and consumes exactly the frame.
pub proof fn lemma_frame_stored_round_trip(id: i32, payload: Seq<u8>, rest: Seq<u8>)
    requires
        1 + varint_size(id) + payload.len() < MAX_PACKET_SIZE,
    ensures
        decode_frame(true, frame_stored(id, payload) + rest) == (FrameParse::Frame {
            id,
            body: payload,
            used: frame_stored(id, payload).len() as int,
        }),
{
    let len = 1 + varint_size(id) + payload.len();
    let inner = inner_bytes(id, payload);
    let content = varint_bytes(0) + inner;
    let s = frame_stored(id, payload) + rest;
    assert(s =~= varint_bytes(len as i32) + (content + rest));
    lemma_varint_round_trip(len as i32, content + rest);
    let plen = varint_parse_len(s);
    assert(varint_parsed_value(s) == len as i32);
    assert(varint_bytes(0) =~= seq![0u8]);
    assert(content.len() == len);
    assert(s.subrange(plen, plen + len) =~= content);
    lemma_varint_round_trip(0, inner);
    assert(varint_parse_len(content) == 1);
    assert(varint_parsed_value(content) == 0);
    assert(content.skip(1) =~= inner);
    lemma_varint_round_trip(id, payload);
    assert(inner.skip(varint_size(id)) =~= payload);
    assert(decode_compressed(content, plen + len) =~= (FrameParse::Frame {
        id,
        body: payload,
        used: frame_stored(id, payload).len() as int,
    }));
}

/// Decoding a deflated compressed-mode frame behind any suffix, when the
/// zlib bytes inflate back to the frame's content, yields its id and
/// payload and consumes exactly the frame.
pub proof fn lemma_frame_deflated_round_trip(id: i32, payload: Seq<u8>, z: Seq<u8>, rest: Seq<u8>)
    requires
        zlib_inflate_of(z) == Some(inner_bytes(id, payload)),
        varint_size(id) + payload.len() <= i32::MAX,
        varint_size((varint_size(id) + payload.len()) as i32) + z.len() < MAX_PACKET_SIZE,
    ensures
        decode_frame(true, frame_deflated(id, payload, z) + rest) == (FrameParse::Frame {
            id,
            body: payload,
            used: frame_deflated(id, payload, z).len() as int,
        }),
{
    let data_len = varint_size(id) + payload.len();
    let inner = inner_bytes(id, payload);
    let len = varint_size(data_len as i32) + z.len();
    let content = varint_bytes(data_len as i32) + z;
    let s = frame_deflated(id, payload, z) + rest;
    assert(s =~= varint_bytes(len as i32) + (content + rest));
    lemma_varint_round_trip(len as i32, content + rest);
    let plen = varint_parse_len(s);
    assert(varint_parsed_value(s) == len as i32);
    assert(content.len() == len);
    assert(s.subrange(plen, plen + len) =~= content);
    lemma_varint_round_trip(data_len as i32, z);
    assert(varint_parse_len(content) == varint_size(data_len as i32));
    assert(varint_parsed_value(content) == data_len as i32);
    assert(content.skip(varint_size(data_len as i32)) =~= z);
    assert(data_len >= 1);
    lemma_varint_round_trip(id, payload);
    assert(inner.skip(varint_size(id)) =~= payload);
    assert(decode_compressed(content, plen + len) =~= (FrameParse::Frame {
        id,
        body: payload,
        used: frame_deflated(id, payload, z).len() as int,
    }));
}

/// One uncompressed frame in front of any tail stream stands first in the
/// decoded stream, and the tail decodes unchanged behind it: however the
/// bytes were chunked on arrival, the frames come out whole and in order.
pub proof fn lemma_stream_plain(id: i32, payload: Seq<u8>, rest: Seq<u8>)
    requires
        varint_size(id) + payload.len() < MAX_PACKET_SIZE,
    ensures
        decoded_stream(false, frame_plain(id, payload) + rest) == seq![(id, payload)]
            + decoded_stream(false, rest),
{
    lemma_frame_plain_round_trip(id, payload, rest);
    crate::var_int::lemma_varint_bytes_u_len(
        ((varint_size(id) + payload.len()) as i32) as u32,
    );
    assert((frame_plain(id, payload) + rest).skip(frame_plain(id, payload).len() as int)
        =~= rest);
}

/// The same, for a stored compressed-mode frame.
pub proof fn lemma_stream_stored(id: i32, payload: Seq<u8>, rest: Seq<u8>)
    requires
        1 + varint_size(id) + payload.len() < MAX_PACKET_SIZE,
    ensures
        decoded_stream(true, frame_stored(id, payload) + rest) == seq![(id, payload)]
            + decoded_stream(true, rest),
{
    lemma_frame_stored_round_trip(id, payload, rest);
    crate::var_int::lemma_varint_bytes_u_len(
        ((1 + varint_size(id) + payload.len()) as i32) as u32,
    );
    assert((frame_stored(id, payload) + rest).skip(frame_stored(id, payload).len() as int)
        =~= rest);
}

/// The wire bytes of a list of frames, all in the plain layout, in order.
pub open spec fn plain_frames_bytes(fs: Seq<(i32, Seq<u8>)>) -> Seq<u8>
    decreases fs.len(),
{
    if fs.len() == 0 {
        Seq::empty()
    } else {
        frame_plain(fs[0].0, fs[0].1) + plain_frames_bytes(fs.drop_first())
    }
}

/// However many well-formed plain frames a stream holds, decoding yields
/// exactly those frames in their order — and since the decoder's buffer is
/// the concatenation of whatever chunks were queued, this is what any
/// chunking of the stream yields.
pub proof fn lemma_stream_plain_frames(fs: Seq<(i32, Seq<u8>)>)
    requires
        forall|i: int|
            0 <= i < fs.len() ==> varint_size((#[trigger] fs[i]).0) + fs[i].1.len()
                < MAX_PACKET_SIZE,
    ensures
        decoded_stream(false, plain_frames_bytes(fs)) == fs,
    decreases fs.len(),
{
    if fs.len() == 0 {
        assert(decoded_stream(false, plain_frames_bytes(fs))
            =~= Seq::<(i32, Seq<u8>)>::empty());
    } else {
        lemma_stream_plain(fs[0].0, fs[0].1, plain_frames_bytes(fs.drop_first()));
        lemma_stream_plain_frames(fs.drop_first());
        assert(seq![(fs[0].0, fs[0].1)] + fs.drop_first() =~= fs);
    }
}

/// The same, for a stream of stored compressed-mode frames.
pub open spec fn stored_frames_bytes(fs: Seq<(i32, Seq<u8>)>) -> Seq<u8>
    decreases fs.len(),
{
    if fs.len() == 0 {
        Seq::empty()
    } else {
        frame_stored(fs[0].0, fs[0].1) + stored_frames_bytes(fs.drop_first())
    }
}

pub proof fn lemma_stream_stored_frames(fs: Seq<(i32, Seq<u8>)>)
    requires
        forall|i: int|
            0 <= i < fs.len() ==> 1 + varint_size((#[trigger] fs[i]).0) + fs[i].1.len()
                < MAX_PACKET_SIZE,
    ensures
        decoded_stream(true, stored_frames_bytes(fs)) == fs,
    decreases fs.len(),
{
    if fs.len() == 0 {
        assert(decoded_stream(true, stored_frames_bytes(fs))
            =~= Seq::<(i32, Seq<u8>)>::empty());
    } else {
        lemma_stream_stored(fs[0].0, fs[0].1, stored_frames_bytes(fs.drop_first()));
        lemma_stream_stored_frames(fs.drop_first());
        assert(seq![(fs[0].0, fs[0].1)] + fs.drop_first() =~= fs);
    }
}

/// The same, for a deflated compressed-mode frame whose zlib bytes inflate
/// back to its content.
pub proof fn lemma_stream_deflated(id: i32, payload: Seq<u8>, z: Seq<u8>, rest: Seq<u8>)
    requires
        zlib_inflate_of(z) == Some(inner_bytes(id, payload)),
        varint_size(id) + payload.len() <= i32::MAX,
        varint_size((varint_size(id) + payload.len()) as i32) + z.len() < MAX_PACKET_SIZE,
    ensures
        decoded_stream(true, frame_deflated(id, payload, z) + rest) == seq![(id, payload)]
            + decoded_stream(true, rest),
{
    lemma_frame_deflated_round_trip(id, payload, z, rest);
    crate::var_int::lemma_varint_bytes_u_len(
        ((varint_size((varint_size(id) + payload.len()) as i32) + z.len()) as i32) as u32,
    );
    assert((frame_deflated(id, payload, z) + rest).skip(
        frame_deflated(id, payload, z).len() as int,
    ) =~= rest);
}

} // verus!
