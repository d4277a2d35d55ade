//! Encoder/decoder for the raw `<len:u16le><cmd:u16le><payload>` frame, where
//! `len` counts the command word plus the payload.

use vstd::prelude::*;
use crate::error::ProtoError;
use crate::frame::{CmdCode, OwnedFrame, FrameView, cmd_word, is_known_cmd_word};
use crate::le::{u16_le, le16_at, lemma_u16_roundtrip, put_u16_le, put_slice, slice_to_vec};

verus! {

/// Bytes in the little-endian length prefix.
pub const LEN_BYTES: usize = 2;

/// Bytes in the little-endian command field.
pub const CMD_BYTES: usize = 2;

/// The bytes a frame is sent as, or the error when its payload is too large
/// for the length prefix.
pub open spec fn frame_bytes(f: FrameView) -> Result<Seq<u8>, ProtoError> {
    let len = 2 + f.1.len();
    if len > 0xffff {
        Err(ProtoError::FrameTooLarge(crate::le::sat_usize(len as int)))
    } else {
        Ok(u16_le(len as u16) + u16_le(cmd_word(f.0)) + f.1)
    }
}

/// What decoding does to a buffer `s`: the bytes left behind and the result.
/// `Ok(None)` asks for more bytes; an error leaves the buffer untouched.
pub open spec fn decode_step(s: Seq<u8>) -> (Seq<u8>, Result<Option<FrameView>, ProtoError>) {
    if s.len() < 2 {
        (s, Ok(None))
    } else {
        let len = le16_at(s, 0);
        if len < 2 {
            (s, Err(ProtoError::ShortFrame { expected: 2, got: len as usize }))
        } else if s.len() < 2 + len {
            (s, Ok(None))
        } else {
            let word = le16_at(s, 2);
            if !is_known_cmd_word(word) {
                (s, Err(ProtoError::UnknownCmd(word)))
            } else {
                let c = choose|c: CmdCode| cmd_word(c) == word;
                (s.subrange(2 + len, s.len() as int), Ok(Some((c, s.subrange(4, 2 + len)))))
            }
        }
    }
}

/// The plain-value form of a decode result.
pub open spec fn decoded_view(r: Result<Option<OwnedFrame>, ProtoError>) -> Result<
    Option<FrameView>,
    ProtoError,
> {
    match r {
        Ok(Some(f)) => Ok(Some(f@)),
        Ok(None) => Ok(None),
        Err(e) => Err(e),
    }
}

/// Stateless codec for the raw framing layer.
pub struct HuiduCodec;

impl HuiduCodec {
    /// Decode one frame from the front of `src`, consuming its bytes.
    pub fn decode(&mut self, src: &mut Vec<u8>) -> (res: Result<Option<OwnedFrame>, ProtoError>)
        ensures
            (final(src)@, decoded_view(res)) == decode_step(old(src)@),
    {
        if src.len() < LEN_BYTES {
            return Ok(None);
        }
        let len = (src[0] as u16) | ((src[1] as u16) << 8);
        if (len as usize) < CMD_BYTES {
            return Err(ProtoError::ShortFrame { expected: CMD_BYTES, got: len as usize });
        }
        let total = LEN_BYTES + len as usize;
        if src.len() < total {
            return Ok(None);
        }
        let word = (src[2] as u16) | ((src[3] as u16) << 8);
        let cmd = match CmdCode::from_u16(word) {
            Ok(c) => c,
            Err(e) => return Err(e),
        };
        proof {
            crate::frame::lemma_cmd_word_injective(cmd, choose|c: CmdCode| cmd_word(c) == word);
        }
        let payload = slice_to_vec(src.as_slice(), LEN_BYTES + CMD_BYTES, total);
        let rest = slice_to_vec(src.as_slice(), total, src.len());
        *src = rest;
        Ok(Some(OwnedFrame { cmd, payload }))
    }

    /// Append the wire form of `frame` to `dst`; a payload too large for the
    /// length prefix is rejected and `dst` is left as it was.
    pub fn encode(&mut self, frame: OwnedFrame, dst: &mut Vec<u8>) -> (res: Result<(), ProtoError>)
        ensures
            match frame_bytes(frame@) {
                Ok(b) => res is Ok && final(dst)@ == old(dst)@ + b,
                Err(e) => res == Err::<(), ProtoError>(e) && final(dst)@ == old(dst)@,
            },
    {
        if frame.payload.len() > 0xffff - CMD_BYTES {
            return Err(ProtoError::FrameTooLarge(frame.payload.len().saturating_add(CMD_BYTES)));
        }
        let len = (CMD_BYTES + frame.payload.len()) as u16;
        put_u16_le(dst, len);
        put_u16_le(dst, frame.cmd.as_u16());
        put_slice(dst, frame.payload.as_slice());
        assert(dst@ =~= old(dst)@ + (u16_le(len) + u16_le(cmd_word(frame.cmd)) + frame.payload@));
        Ok(())
    }
}

/// The wire layout of a frame: the length word counts the command word and
/// the payload, both words are little-endian, and the payload follows them
/// unchanged; a frame whose length would not fit in the word is refused.
pub proof fn lemma_frame_layout(f: FrameView)
    ensures
        f.1.len() + 2 <= 0xffff ==> (frame_bytes(f) matches Ok(b) && b.len() == f.1.len() + 4 && b[0] + 0x100 * b[1]
            == f.1.len() + 2 && b[2] + 0x100 * b[3] == cmd_word(f.0) && b.subrange(4, b.len() as int) == f.1),
        f.1.len() + 2 > 0xffff ==> frame_bytes(f) is Err,
{
    if f.1.len() + 2 <= 0xffff {
        let len = (2 + f.1.len()) as u16;
        crate::le::lemma_le_digits(len, 0, 0);
        crate::le::lemma_le_digits(cmd_word(f.0), 0, 0);
        let b = frame_bytes(f)->Ok_0;
        assert(b.subrange(4, b.len() as int) =~= f.1);
    }
}

/// Decoding undoes encoding: a frame's bytes, followed by anything, decode to
/// that frame and leave exactly the bytes that followed.
pub proof fn lemma_decode_encoded(f: FrameView, rest: Seq<u8>)
    requires
        frame_bytes(f) is Ok,
    ensures
        decode_step(frame_bytes(f)->Ok_0 + rest) == (rest, Ok::<Option<FrameView>, ProtoError>(Some(f))),
{
    let b = frame_bytes(f)->Ok_0;
    let s = b + rest;
    let len = (2 + f.1.len()) as u16;
    lemma_u16_roundtrip(len);
    lemma_u16_roundtrip(cmd_word(f.0));
    assert(le16_at(s, 0) == len);
    assert(le16_at(s, 2) == cmd_word(f.0));
    let c = choose|c: CmdCode| #[trigger] cmd_word(c) == cmd_word(f.0);
    crate::frame::lemma_cmd_word_injective(c, f.0);
    assert(s.subrange(4, 2 + len) =~= f.1);
    assert(s.subrange(2 + len, s.len() as int) =~= rest);
}

/// Decoding waits for a whole frame: any strict prefix of a frame's bytes
/// asks for more and leaves the buffer as it was.
pub proof fn lemma_decode_prefix_waits(f: FrameView, k: int)
    requires
        frame_bytes(f) is Ok,
        0 <= k < frame_bytes(f)->Ok_0.len(),
    ensures
        decode_step(frame_bytes(f)->Ok_0.take(k)) == (frame_bytes(f)->Ok_0.take(k), Ok::<Option<FrameView>, ProtoError>(None)),
{
    let b = frame_bytes(f)->Ok_0;
    let p = b.take(k);
    let len = (2 + f.1.len()) as u16;
    lemma_u16_roundtrip(len);
    if k >= 2 {
        assert(p[0] == b[0] && p[1] == b[1]);
        assert(le16_at(p, 0) == le16_at(b, 0));
        assert(le16_at(b, 0) == len);
    }
}

} // verus!
