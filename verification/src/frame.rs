//! Command codes of the `<len:u16le><cmd:u16le><payload>` frame and the owned
//! frame value the codec hands out.

use vstd::prelude::*;
use crate::error::ProtoError;

verus! {

/// Every SDK 2.0 / file-transfer command code.
#[derive(Debug, Clone, Copy, PartialEq, Eq, Structural)]
pub enum CmdCode {
    VersionAsk,
    VersionReply,
    SdkCmd,
    SdkReply,
    Heartbeat,
    HeartbeatReply,
    FileStartAsk,
    FileStartReply,
    FileContentAsk,
    FileContentReply,
    FileEndAsk,
    FileEndReply,
}

/// The raw command word carried on the wire for each code.
pub open spec fn cmd_word(c: CmdCode) -> u16 {
    match c {
        CmdCode::VersionAsk => 0x2001,
        CmdCode::VersionReply => 0x2002,
        CmdCode::SdkCmd => 0x2003,
        CmdCode::SdkReply => 0x2004,
        CmdCode::Heartbeat => 0x2005,
        CmdCode::HeartbeatReply => 0x2006,
        CmdCode::FileStartAsk => 0x8001,
        CmdCode::FileStartReply => 0x8002,
        CmdCode::FileContentAsk => 0x8003,
        CmdCode::FileContentReply => 0x8004,
        CmdCode::FileEndAsk => 0x8005,
        CmdCode::FileEndReply => 0x8006,
    }
}

/// Whether `v` is the word of some known command code.
pub open spec fn is_known_cmd_word(v: u16) -> bool {
    exists|c: CmdCode| cmd_word(c) == v
}

impl CmdCode {
    /// Parse a raw command word, rejecting unknown codes.
    pub fn from_u16(v: u16) -> (res: Result<CmdCode, ProtoError>)
        ensures
            match res {
                Ok(c) => cmd_word(c) == v,
                Err(e) => !is_known_cmd_word(v) && e == ProtoError::UnknownCmd(v),
            },
    {
        match v {
            0x2001 => Ok(CmdCode::VersionAsk),
            0x2002 => Ok(CmdCode::VersionReply),
            0x2003 => Ok(CmdCode::SdkCmd),
            0x2004 => Ok(CmdCode::SdkReply),
            0x2005 => Ok(CmdCode::Heartbeat),
            0x2006 => Ok(CmdCode::HeartbeatReply),
            0x8001 => Ok(CmdCode::FileStartAsk),
            0x8002 => Ok(CmdCode::FileStartReply),
            0x8003 => Ok(CmdCode::FileContentAsk),
            0x8004 => Ok(CmdCode::FileContentReply),
            0x8005 => Ok(CmdCode::FileEndAsk),
            0x8006 => Ok(CmdCode::FileEndReply),
            other => {
                assert forall|c: CmdCode| cmd_word(c) != other by {}
                Err(ProtoError::UnknownCmd(other))
            },
        }
    }

    /// The raw command word for this code.
    pub fn as_u16(self) -> (v: u16)
        ensures
            v == cmd_word(self),
    {
        match self {
            CmdCode::VersionAsk => 0x2001,
            CmdCode::VersionReply => 0x2002,
            CmdCode::SdkCmd => 0x2003,
            CmdCode::SdkReply => 0x2004,
            CmdCode::Heartbeat => 0x2005,
            CmdCode::HeartbeatReply => 0x2006,
            CmdCode::FileStartAsk => 0x8001,
            CmdCode::FileStartReply => 0x8002,
            CmdCode::FileContentAsk => 0x8003,
            CmdCode::FileContentReply => 0x8004,
            CmdCode::FileEndAsk => 0x8005,
            CmdCode::FileEndReply => 0x8006,
        }
    }
}

/// Every command code, in declaration order: the six session codes, then
/// the six file-transfer codes, each ask followed by its reply.
pub open spec fn cmd_codes() -> Seq<CmdCode> {
    seq![
        CmdCode::VersionAsk,
        CmdCode::VersionReply,
        CmdCode::SdkCmd,
        CmdCode::SdkReply,
        CmdCode::Heartbeat,
        CmdCode::HeartbeatReply,
        CmdCode::FileStartAsk,
        CmdCode::FileStartReply,
        CmdCode::FileContentAsk,
        CmdCode::FileContentReply,
        CmdCode::FileEndAsk,
        CmdCode::FileEndReply,
    ]
}

/// The wire words number the codes in declaration order: the `k`-th session
/// code (from zero) is `0x2001 + k` and the `k`-th file-transfer code is
/// `0x8001 + k`; so each reply's word is its ask's word plus one.
pub proof fn lemma_cmd_word_table()
    ensures
        cmd_codes().len() == 12,
        forall|c: CmdCode| cmd_codes().contains(c),
        forall|k: int| 0 <= k < 6 ==> cmd_word(#[trigger] cmd_codes()[k]) == 0x2001 + k,
        forall|k: int| 6 <= k < 12 ==> cmd_word(#[trigger] cmd_codes()[k]) == 0x8001 + (k - 6),
        forall|k: int| 0 <= k < 6 ==> cmd_word(#[trigger] cmd_codes()[2 * k + 1]) == cmd_word(cmd_codes()[2 * k]) + 1,
{
    assert forall|c: CmdCode| cmd_codes().contains(c) by {
        let k: int = match c {
            CmdCode::VersionAsk => 0,
            CmdCode::VersionReply => 1,
            CmdCode::SdkCmd => 2,
            CmdCode::SdkReply => 3,
            CmdCode::Heartbeat => 4,
            CmdCode::HeartbeatReply => 5,
            CmdCode::FileStartAsk => 6,
            CmdCode::FileStartReply => 7,
            CmdCode::FileContentAsk => 8,
            CmdCode::FileContentReply => 9,
            CmdCode::FileEndAsk => 10,
            CmdCode::FileEndReply => 11,
        };
        assert(cmd_codes()[k] == c);
    }
}

/// Distinct codes have distinct command words, so a word names at most one code.
pub proof fn lemma_cmd_word_injective(a: CmdCode, b: CmdCode)
    ensures
        cmd_word(a) == cmd_word(b) ==> a == b,
{
}

/// A decoded frame that owns its payload.
#[derive(Debug, Clone, PartialEq, Eq)]
pub struct OwnedFrame {
    pub cmd: CmdCode,
    pub payload: Vec<u8>,
}

/// A frame as plain values: `(cmd, payload)`.
pub type FrameView = (CmdCode, Seq<u8>);

impl View for OwnedFrame {
    type V = FrameView;

    open spec fn view(&self) -> FrameView {
        (self.cmd, self.payload@)
    }
}

impl OwnedFrame {
    /// Build a frame from a command code and its payload bytes.
    pub fn new(cmd: CmdCode, payload: Vec<u8>) -> (f: OwnedFrame)
        ensures
            f.cmd == cmd,
            f.payload@ == payload@,
    {
        OwnedFrame { cmd, payload }
    }
}

} // verus!
