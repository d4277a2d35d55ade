//! The decisions of a round-trip: which reply frame is acceptable, and how an
//! SDK document is cut into request frames. The socket itself is driven by
//! the application.

use vstd::prelude::*;
use crate::error::{Error, ProtoError};
use crate::frame::{cmd_word, CmdCode, FrameView, OwnedFrame};
use crate::sdk_frame::{fragment_bytes, fragment_xml, fragments_of, FragmentView, SdkFragment};

verus! {

/// A reply frame must carry the command the step awaits; any other is
/// `UnexpectedReply` naming both raw command words.
pub fn expect_reply(reply: &OwnedFrame, expect: CmdCode) -> (res: Result<(), Error>)
    ensures
        reply.cmd == expect ==> res is Ok,
        reply.cmd != expect ==> (res matches Err(Error::UnexpectedReply { expected, got })
            && expected == cmd_word(expect) && got == cmd_word(reply.cmd)),
{
    if reply.cmd == expect {
        Ok(())
    } else {
        Err(Error::UnexpectedReply { expected: expect.as_u16(), got: reply.cmd.as_u16() })
    }
}

/// The `SdkCmd` frame that carries one fragment.
pub open spec fn sdk_cmd_frame(f: FragmentView) -> FrameView {
    (CmdCode::SdkCmd, fragment_bytes(f))
}

/// The request frames an SDK document is sent as: one `SdkCmd` frame per
/// fragment of at most `frag_size` bytes (0 is taken as 1). A document too
/// long for the 32-bit length field is `FrameTooLarge`.
pub fn sdk_request_frames(xml: &[u8], frag_size: usize) -> (res: Result<Vec<OwnedFrame>, Error>)
    ensures
        xml@.len() > u32::MAX ==> (res matches Err(Error::Proto(ProtoError::FrameTooLarge(n))) && n == xml@.len() as usize),
        xml@.len() <= u32::MAX ==> (res matches Ok(v) && v@.map_values(|f: OwnedFrame| f@)
            == fragments_of(xml@, if frag_size == 0 { 1 } else { frag_size as nat }).map_values(
            |f: FragmentView| sdk_cmd_frame(f),
        )),
{
    let frags = match fragment_xml(xml, frag_size) {
        Ok(f) => f,
        Err(e) => return Err(Error::Proto(e)),
    };
    let ghost fv = frags@.map_values(|f: SdkFragment| f@);
    let mut out: Vec<OwnedFrame> = Vec::new();
    let n = frags.len();
    let mut i: usize = 0;
    while i < n
        invariant
            n == frags@.len(),
            i <= n,
            fv == frags@.map_values(|f: SdkFragment| f@),
            out@.map_values(|f: OwnedFrame| f@) == fv.take(i as int).map_values(|f: FragmentView| sdk_cmd_frame(f)),
        decreases n - i,
    {
        let payload = frags[i].encode();
        let ghost before = out@;
        out.push(OwnedFrame::new(CmdCode::SdkCmd, payload));
        proof {
            assert(fv[i as int] == frags@[i as int]@);
            assert(out@.map_values(|f: OwnedFrame| f@) =~= before.map_values(|f: OwnedFrame| f@).push(
                sdk_cmd_frame(fv[i as int]),
            ));
            assert(fv.take(i + 1).map_values(|f: FragmentView| sdk_cmd_frame(f)) =~= fv.take(i as int).map_values(
                |f: FragmentView| sdk_cmd_frame(f),
            ).push(sdk_cmd_frame(fv[i as int])));
        }
        i = i + 1;
    }
    assert(fv.take(n as int) =~= fv);
    Ok(out)
}

} // verus!
