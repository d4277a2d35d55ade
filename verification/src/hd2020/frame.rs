//! HD2020 Gen6 realtime framing:
//! `0xA5 | cmd:u8 | len:u16le | payload[len] | checksum:u8`, where the
//! checksum is the low byte of the sum of every byte from `cmd` through the
//! end of the payload.

use vstd::prelude::*;
use crate::error::ProtoError;
use crate::fmt::{hex2, dec, push_hex2, push_dec};
use crate::le::{u16_le, le16_at, lemma_u16_roundtrip, put_u16_le, put_slice, slice_to_vec};

verus! {

/// Frame start / resync byte.
pub const START: u8 = 0xA5;

/// Bytes of fixed framing overhead: start(1) + cmd(1) + len(2) + checksum(1).
pub const OVERHEAD: usize = 5;

/// HD2020 Gen6 realtime command codes.
#[derive(Debug, Clone, Copy, PartialEq, Eq, Structural)]
pub enum Hd2020Cmd {
    /// Replace the realtime display with a rendered text bitmap.
    RealtimeText,
    /// Blank the realtime display.
    Clear,
    /// Set panel brightness; payload is a single 0–255 level byte.
    Brightness,
}

/// The command byte of each code.
pub open spec fn hd2020_cmd_byte(c: Hd2020Cmd) -> u8 {
    match c {
        Hd2020Cmd::RealtimeText => 0x01,
        Hd2020Cmd::Clear => 0x02,
        Hd2020Cmd::Brightness => 0x03,
    }
}

/// The code a command byte names, if any.
pub open spec fn hd2020_cmd_of(v: u8) -> Option<Hd2020Cmd> {
    if v == 0x01 {
        Some(Hd2020Cmd::RealtimeText)
    } else if v == 0x02 {
        Some(Hd2020Cmd::Clear)
    } else if v == 0x03 {
        Some(Hd2020Cmd::Brightness)
    } else {
        None
    }
}

/// The message for an unknown command byte.
pub open spec fn unknown_cmd_msg(v: u8) -> Seq<char> {
    "unknown HD2020 command 0x"@ + hex2(v)
}

impl Hd2020Cmd {
    /// Parse a raw command byte, rejecting unknown codes.
    pub fn from_u8(v: u8) -> (res: Result<Hd2020Cmd, ProtoError>)
        ensures
            match hd2020_cmd_of(v) {
                Some(c) => res == Ok::<Hd2020Cmd, ProtoError>(c),
                None => res matches Err(ProtoError::Hd2020(m)) && m@ == unknown_cmd_msg(v),
            },
    {
        match v {
            0x01 => Ok(Hd2020Cmd::RealtimeText),
            0x02 => Ok(Hd2020Cmd::Clear),
            0x03 => Ok(Hd2020Cmd::Brightness),
            other => {
                let mut m = String::from_str("unknown HD2020 command 0x");
                push_hex2(&mut m, other);
                Err(ProtoError::Hd2020(m))
            },
        }
    }

    /// The raw command byte.
    pub fn as_u8(self) -> (v: u8)
        ensures
            v == hd2020_cmd_byte(self),
    {
        match self {
            Hd2020Cmd::RealtimeText => 0x01,
            Hd2020Cmd::Clear => 0x02,
            Hd2020Cmd::Brightness => 0x03,
        }
    }
}

/// Every command, in the order the protocol numbers them.
pub open spec fn hd2020_cmds() -> Seq<Hd2020Cmd> {
    seq![Hd2020Cmd::RealtimeText, Hd2020Cmd::Clear, Hd2020Cmd::Brightness]
}

/// The protocol numbers its commands from one in declaration order: the
/// `k`-th command (from zero) goes on the wire as byte `k + 1` and that byte
/// reads back as it, and no other byte names a command.
pub proof fn lemma_hd2020_cmd_table()
    ensures
        forall|c: Hd2020Cmd| hd2020_cmds().contains(c),
        forall|k: int| 0 <= k < hd2020_cmds().len() ==> hd2020_cmd_byte(#[trigger] hd2020_cmds()[k]) == k + 1,
        forall|k: int| 0 <= k < hd2020_cmds().len() ==> hd2020_cmd_of((k + 1) as u8) == Some(#[trigger] hd2020_cmds()[k]),
        forall|v: u8| (v == 0 || v > hd2020_cmds().len()) ==> hd2020_cmd_of(v) is None,
{
    assert forall|c: Hd2020Cmd| hd2020_cmds().contains(c) by {
        match c {
            Hd2020Cmd::RealtimeText => assert(hd2020_cmds()[0] == c),
            Hd2020Cmd::Clear => assert(hd2020_cmds()[1] == c),
            Hd2020Cmd::Brightness => assert(hd2020_cmds()[2] == c),
        }
    }
}

/// Every code reads back from its own byte.
pub proof fn lemma_hd2020_cmd_roundtrip(c: Hd2020Cmd)
    ensures
        hd2020_cmd_of(hd2020_cmd_byte(c)) == Some(c),
{
}

/// A decoded HD2020 Gen6 frame that owns its payload.
#[derive(Debug, Clone, PartialEq, Eq)]
pub struct Hd2020Frame {
    pub cmd: Hd2020Cmd,
    pub payload: Vec<u8>,
}

/// A frame as plain values: `(cmd, payload)`.
pub type Hd2020FrameView = (Hd2020Cmd, Seq<u8>);

impl View for Hd2020Frame {
    type V = Hd2020FrameView;

    open spec fn view(&self) -> Hd2020FrameView {
        (self.cmd, self.payload@)
    }
}

/// The sum of all bytes of `s`.
pub open spec fn byte_sum(s: Seq<u8>) -> nat
    decreases s.len(),
{
    if s.len() == 0 {
        0
    } else {
        byte_sum(s.drop_last()) + (s.last() as nat)
    }
}

/// The sum of two byte strings laid end to end is the sum of their sums.
pub proof fn lemma_byte_sum_append(a: Seq<u8>, b: Seq<u8>)
    ensures
        byte_sum(a + b) == byte_sum(a) + byte_sum(b),
    decreases b.len(),
{
    if b.len() > 0 {
        lemma_byte_sum_append(a, b.drop_last());
        assert((a + b).drop_last() =~= a + b.drop_last());
    } else {
        assert(a + b =~= a);
    }
}

/// Low byte of the sum of the command byte, both length bytes and the payload.
pub open spec fn checksum_of(cmd: u8, len: u16, payload: Seq<u8>) -> u8 {
    ((cmd + u16_le(len)[0] + u16_le(len)[1] + byte_sum(payload)) % 256) as u8
}

/// The wire bytes of a frame, or the error for a payload the length field
/// cannot describe.
pub open spec fn hd2020_frame_bytes(f: Hd2020FrameView) -> Result<Seq<u8>, Seq<char>> {
    if f.1.len() > 0xffff {
        Err("HD2020 payload "@ + dec(f.1.len()) + " bytes exceeds u16 length field"@)
    } else {
        let len = f.1.len() as u16;
        Ok(seq![START, hd2020_cmd_byte(f.0)] + u16_le(len) + f.1 + seq![
            checksum_of(hd2020_cmd_byte(f.0), len, f.1),
        ])
    }
}

/// The wire layout of a frame: the start byte `0xA5`, the command byte, the
/// payload length as a little-endian word, the payload unchanged, and a last
/// byte equal to the low byte of the sum of every byte from the command byte
/// through the end of the payload.
pub proof fn lemma_hd2020_frame_layout(f: Hd2020FrameView)
    ensures
        f.1.len() <= 0xffff ==> (hd2020_frame_bytes(f) matches Ok(b) && b.len() == f.1.len() + 5 && b[0] == 0xA5
            && b[1] == hd2020_cmd_byte(f.0) && b[2] + 0x100 * b[3] == f.1.len() && b.subrange(4, 4 + f.1.len() as int)
            == f.1 && b[4 + f.1.len() as int] == byte_sum(b.subrange(1, 4 + f.1.len() as int)) % 0x100),
        f.1.len() > 0xffff ==> hd2020_frame_bytes(f) is Err,
{
    if f.1.len() <= 0xffff {
        let n = f.1.len() as int;
        let len = n as u16;
        crate::le::lemma_le_digits(len, 0, 0);
        let b = hd2020_frame_bytes(f)->Ok_0;
        let c = hd2020_cmd_byte(f.0);
        assert(b.subrange(4, 4 + n) =~= f.1);
        let head = seq![c, u16_le(len)[0], u16_le(len)[1]];
        assert(b.subrange(1, 4 + n) =~= head + f.1);
        lemma_byte_sum_append(head, f.1);
        let h1 = seq![c];
        let h2 = seq![c, u16_le(len)[0]];
        assert(h1.drop_last() =~= Seq::<u8>::empty());
        assert(byte_sum(Seq::<u8>::empty()) == 0);
        assert(h1.last() == c);
        assert(byte_sum(h1) == byte_sum(h1.drop_last()) + c);
        assert(byte_sum(h1) == c as nat);
        assert(h2.drop_last() =~= h1);
        assert(byte_sum(h2) == c + u16_le(len)[0]);
        assert(head.drop_last() =~= h2);
        assert(byte_sum(head) == c + u16_le(len)[0] + u16_le(len)[1]);
    }
}

/// What decoding the front of `b` gives: `None` until a whole frame is
/// there, else the frame and the bytes it used, or the error message.
pub open spec fn hd2020_decode_spec(b: Seq<u8>) -> Result<Option<(Hd2020FrameView, nat)>, Seq<char>> {
    if b.len() < 5 {
        Ok(None)
    } else if b[0] != START {
        Err("bad HD2020 start byte 0x"@ + hex2(b[0]) + ", expected 0xa5"@)
    } else {
        let len = le16_at(b, 2);
        if b.len() < 5 + len {
            Ok(None)
        } else {
            let payload = b.subrange(4, 4 + len);
            let want = checksum_of(b[1], len, payload);
            let got = b[4 + len];
            if want != got {
                Err(
                    "HD2020 checksum mismatch: computed 0x"@ + hex2(want) + ", frame carried 0x"@
                        + hex2(got),
                )
            } else {
                match hd2020_cmd_of(b[1]) {
                    Some(c) => Ok(Some(((c, payload), (5 + len) as nat))),
                    None => Err(unknown_cmd_msg(b[1])),
                }
            }
        }
    }
}

/// The message of an HD2020 error, as plain characters.
pub open spec fn hd2020_msg(e: ProtoError) -> Option<Seq<char>> {
    match e {
        ProtoError::Hd2020(m) => Some(m@),
        _ => None,
    }
}

impl Hd2020Frame {
    /// Build a frame from a command and its payload bytes.
    pub fn new(cmd: Hd2020Cmd, payload: Vec<u8>) -> (f: Hd2020Frame)
        ensures
            f@ == (cmd, payload@),
    {
        Hd2020Frame { cmd, payload }
    }

    /// Low byte of the sum of the `cmd` byte, both little-endian length bytes,
    /// and every payload byte.
    fn checksum(cmd: u8, len: u16, payload: &[u8]) -> (c: u8)
        ensures
            c == checksum_of(cmd, len, payload@),
    {
        let lo = (len & 0xff) as u8;
        let hi = (len >> 8) as u8;
        let mut sum: u8 = ((cmd as u16 + lo as u16 + hi as u16) % 256) as u8;
        let mut i: usize = 0;
        while i < payload.len()
            invariant
                i <= payload@.len(),
                sum == ((cmd + lo + hi + byte_sum(payload@.subrange(0, i as int))) % 256),
            decreases payload@.len() - i,
        {
            let ghost pre = payload@.subrange(0, i as int);
            assert(payload@.subrange(0, i + 1).drop_last() =~= pre);
            sum = ((sum as u16 + payload[i] as u16) % 256) as u8;
            i = i + 1;
        }
        assert(payload@.subrange(0, payload@.len() as int) =~= payload@);
        sum
    }

    /// Serialize the frame to its on-wire bytes.
    pub fn encode(&self) -> (res: Result<Vec<u8>, ProtoError>)
        ensures
            match hd2020_frame_bytes(self@) {
                Ok(b) => res matches Ok(v) && v@ == b,
                Err(m) => res matches Err(e) && hd2020_msg(e) == Some(m),
            },
    {
        if self.payload.len() > 0xffff {
            proof { reveal_strlit("HD2020 payload "); reveal_strlit(" bytes exceeds u16 length field"); }
            let mut m = String::from_str("HD2020 payload ");
            push_dec(&mut m, self.payload.len() as u64);
            m.append(" bytes exceeds u16 length field");
            return Err(ProtoError::Hd2020(m));
        }
        let len = self.payload.len() as u16;
        let cmd = self.cmd.as_u8();
        let mut buf: Vec<u8> = Vec::new();
        buf.push(START);
        buf.push(cmd);
        put_u16_le(&mut buf, len);
        put_slice(&mut buf, self.payload.as_slice());
        buf.push(Self::checksum(cmd, len, self.payload.as_slice()));
        Ok(buf)
    }

    /// Decode one frame from the front of `buf`, returning it and the number
    /// of bytes consumed. `Ok(None)` means `buf` does not yet hold a whole frame.
    pub fn decode(buf: &[u8]) -> (res: Result<Option<(Hd2020Frame, usize)>, ProtoError>)
        ensures
            match hd2020_decode_spec(buf@) {
                Ok(None) => res matches Ok(None),
                Ok(Some((f, n))) => res matches Ok(Some((g, m))) && g@ == f && m == n,
                Err(msg) => res matches Err(e) && hd2020_msg(e) == Some(msg),
            },
    {
        if buf.len() < OVERHEAD {
            return Ok(None);
        }
        if buf[0] != START {
            let mut m = String::from_str("bad HD2020 start byte 0x");
            push_hex2(&mut m, buf[0]);
            m.append(", expected 0xa5");
            return Err(ProtoError::Hd2020(m));
        }
        let cmd_byte = buf[1];
        let len = (buf[2] as u16) | ((buf[3] as u16) << 8);
        let total = OVERHEAD + len as usize;
        if buf.len() < total {
            return Ok(None);
        }
        let payload = slice_to_vec(buf, 4, 4 + len as usize);
        let want = Self::checksum(cmd_byte, len, payload.as_slice());
        let got = buf[4 + len as usize];
        if want != got {
            let mut m = String::from_str("HD2020 checksum mismatch: computed 0x");
            push_hex2(&mut m, want);
            m.append(", frame carried 0x");
            push_hex2(&mut m, got);
            return Err(ProtoError::Hd2020(m));
        }
        let cmd = match Hd2020Cmd::from_u8(cmd_byte) {
            Ok(c) => c,
            Err(e) => return Err(e),
        };
        Ok(Some((Hd2020Frame { cmd, payload }, total)))
    }
}

/// Decoding undoes encoding: an encoded frame, followed by anything, decodes
/// to the same frame and reports exactly its own length as consumed.
pub proof fn lemma_hd2020_decode_encoded(f: Hd2020FrameView, rest: Seq<u8>)
    requires
        hd2020_frame_bytes(f) is Ok,
    ensures
        hd2020_decode_spec(hd2020_frame_bytes(f)->Ok_0 + rest) == Ok::<
            Option<(Hd2020FrameView, nat)>,
            Seq<char>,
        >(Some((f, hd2020_frame_bytes(f)->Ok_0.len()))),
{
    let b = hd2020_frame_bytes(f)->Ok_0;
    let s = b + rest;
    let len = f.1.len() as u16;
    lemma_u16_roundtrip(len);
    assert(le16_at(s, 2) == len);
    assert(s.subrange(4, 4 + len) =~= f.1);
    assert(s[4 + len] == checksum_of(hd2020_cmd_byte(f.0), len, f.1));
}

/// Decoding waits for a whole frame: any strict prefix of an encoded frame
/// decodes to `None`.
pub proof fn lemma_hd2020_prefix_waits(f: Hd2020FrameView, k: int)
    requires
        hd2020_frame_bytes(f) is Ok,
        0 <= k < hd2020_frame_bytes(f)->Ok_0.len(),
    ensures
        hd2020_decode_spec(hd2020_frame_bytes(f)->Ok_0.take(k)) == Ok::<Option<(Hd2020FrameView, nat)>, Seq<char>>(None),
{
    let b = hd2020_frame_bytes(f)->Ok_0;
    let p = b.take(k);
    let len = f.1.len() as u16;
    lemma_u16_roundtrip(len);
    if k >= 5 {
        assert(p[0] == b[0] && p[2] == b[2] && p[3] == b[3]);
        assert(le16_at(p, 2) == le16_at(b, 2));
        assert(le16_at(b, 2) == len);
    }
}

} // verus!
