//! The decisions a connected device makes around its round-trips: which
//! protocol a command needs, how a handshake failure is tagged, what the
//! session guid is, what `send_text` shows and what `send_screen` sends. The
//! socket, the heartbeat task and the connection lock live in the
//! application.

use vstd::prelude::*;
use crate::error::{Error, ProtoError, ProtocolKind};
use crate::screen::{screen_events, screen_fits, Area, AreaView, ItemView, PlayControl, Program,
    ProgramView, Screen, TextConfig};
use crate::probe::probe_kind;
use crate::sdk::envelope::{decode_reply, envelope_text, no_method_msg, reply_outcome, HeadErr, ReplyOutcome, opt_view, request_bytes, result_view, SdkReply, PLACEHOLDER_GUID};
use crate::sdk::messages::device_info::{device_info_default, device_info_reads, device_info_scan, DeviceInfo, GetDeviceInfo};
use crate::sdk::messages::{decodes_to, reply_ok, result_ok};
use crate::sdk::messages::program::ProgramPush;
use crate::sdk::method::{method_name, unknown_method_msg, SdkMethod};
use crate::sdk::xml::{render, ElementFull, ElementView};

verus! {

/// Gate a command on the protocol the connection speaks: a command exclusive
/// to the other protocol fails with `UnsupportedForProtocol` carrying the
/// connection's actual protocol.
pub fn ensure_protocol(current: ProtocolKind, need: ProtocolKind) -> (res: Result<(), Error>)
    ensures
        current == need ==> res is Ok,
        current != need ==> (res matches Err(Error::UnsupportedForProtocol(k)) && k == current),
{
    if current == need {
        Ok(())
    } else {
        Err(Error::UnsupportedForProtocol(current))
    }
}

/// Wrap a handshake phase failure with its 1-based phase number.
pub fn handshake(phase: u8, source: Error) -> (e: Error)
    ensures
        e matches Error::Handshake { phase: p, source: s } && p == phase && *s == source,
{
    Error::Handshake { phase, source: Box::new(source) }
}

/// The message when a `GetIFVersion` reply names no session.
pub open spec fn no_guid_msg() -> Seq<char> {
    "GetIFVersion reply carried no session guid"@
}

/// What reading the session guid out of a decoded reply gives: the device's
/// failure first, then the `<sdk guid>`, or an XML error when it is missing.
pub open spec fn guid_outcome(rep: SdkReply, res: Result<String, Error>) -> bool {
    if !reply_ok(rep) {
        res matches Err(Error::Proto(ProtoError::SdkError { method, result })) && method@ == method_name(rep.method)
            && result_view(rep.result) == Some(result@)
    } else {
        match opt_view(rep.guid) {
            Some(g) => res matches Ok(s) && s@ == g,
            None => res matches Err(Error::Proto(ProtoError::Xml(m))) && m@ == no_guid_msg(),
        }
    }
}

/// The session guid of a decoded `GetIFVersion` reply, surfacing any device
/// error first.
pub fn guid_of_reply(reply: &SdkReply) -> (res: Result<String, Error>)
    ensures
        guid_outcome(*reply, res),
{
    match reply.check() {
        Ok(()) => {},
        Err(e) => return Err(Error::Proto(e)),
    }
    match &reply.guid {
        Some(g) => Ok(String::from_str(g.as_str())),
        None => {
            proof {
                reveal_strlit("GetIFVersion reply carried no session guid");
            }
            Err(Error::Proto(ProtoError::Xml(String::from_str("GetIFVersion reply carried no session guid"))))
        },
    }
}

/// Where a connection's handshake stands. The application sends the
/// version probe, then hands each reply to [`handshake_step`].
pub enum HandshakePhase {
    /// Waiting for the version probe's reply (phase 1).
    Probe,
    /// Waiting for the `GetIFVersion` reply (phase 2).
    Identity,
    /// Waiting for the `GetDeviceInfo` reply (phase 3), with the session guid.
    Info(String),
}

/// What the application does after a handshake step.
pub enum HandshakeAction {
    /// Send this SDK request document in handshake phase `.0` and hand its
    /// reply back.
    SendSdk(u8, Vec<u8>),
    /// The handshake is over: the connection speaks this protocol, under this
    /// session guid, with this device info.
    Connected(ProtocolKind, String, DeviceInfo),
    /// The handshake failed.
    Fail(Error),
}

/// The phase a handshake step answers, numbered from 1.
pub open spec fn phase_number(p: HandshakePhase) -> u8 {
    match p {
        HandshakePhase::Probe => 1,
        HandshakePhase::Identity => 2,
        HandshakePhase::Info(_) => 3,
    }
}

/// What a handshake step decides, given the round-trip's outcome: a failed
/// round-trip fails the handshake tagged with its phase. Phase 1's reply
/// payload picks the protocol: an HD2020 device is connected at once with
/// an empty guid and default info, an SDK 2.0 one is asked `GetIFVersion`.
/// Phase 2's reply gives the session guid, used to ask `GetDeviceInfo`;
/// phase 3's reply gives the info. A reply that cannot be read fails its
/// phase with that error.
pub open spec fn handshake_next(phase: HandshakePhase, reply: Result<Vec<u8>, Error>, next: HandshakePhase, act: HandshakeAction) -> bool {
    match reply {
        Err(e) => act matches HandshakeAction::Fail(Error::Handshake { phase: k, source }) && k == phase_number(phase)
            && *source == e,
        Ok(x) => match phase {
            HandshakePhase::Probe => if probe_kind(x@) == ProtocolKind::Hd2020 {
                act matches HandshakeAction::Connected(k, g, info) && k == ProtocolKind::Hd2020 && g@ == Seq::<char>::empty()
                    && info@ == device_info_default()
            } else {
                &&& next is Identity
                &&& act matches HandshakeAction::SendSdk(k, b) && k == 2 && b@ == vstd::utf8::encode_utf8(
                    envelope_text(PLACEHOLDER_GUID@, "in"@, SdkMethod::GetIfVersion, None, Seq::empty()),
                )
            },
            HandshakePhase::Identity => match act {
                HandshakeAction::Fail(Error::Handshake { phase: k, source }) => k == 2 && session_guid_outcome(
                    x@,
                    Err(*source),
                ),
                HandshakeAction::SendSdk(k, b) => k == 3 && (next matches HandshakePhase::Info(g) && session_guid_outcome(
                    x@,
                    Ok(g),
                ) && b@ == request_bytes(g@, SdkMethod::GetDeviceInfo, Seq::empty())),
                _ => false,
            },
            HandshakePhase::Info(g) => match act {
                HandshakeAction::Fail(Error::Handshake { phase: k, source }) => k == 3 && (*source matches Error::Proto(pe)
                    && decodes_to(x@, Err::<DeviceInfo, ProtoError>(pe), |f: ElementFull| device_info_reads(f), |v: DeviceInfo, es: Seq<ElementView>| v@
                    == device_info_scan(es))),
                HandshakeAction::Connected(k, g2, info) => k == ProtocolKind::Sdk2 && g2@ == g@ && decodes_to(
                    x@,
                    Ok::<DeviceInfo, ProtoError>(info),
                    |f: ElementFull| device_info_reads(f),
                    |v: DeviceInfo, es: Seq<ElementView>| v@ == device_info_scan(es),
                ),
                _ => false,
            },
        },
    }
}

/// Decide the next handshake step from the current phase and the outcome of
/// its round-trip (the reply payload of the version probe, or the
/// reassembled reply document of an SDK request).
pub fn handshake_step(phase: HandshakePhase, reply: Result<Vec<u8>, Error>) -> (res: (HandshakePhase, HandshakeAction))
    ensures
        handshake_next(phase, reply, res.0, res.1),
{
    let n: u8 = match &phase {
        HandshakePhase::Probe => 1,
        HandshakePhase::Identity => 2,
        HandshakePhase::Info(_) => 3,
    };
    let x = match reply {
        Err(e) => return (phase, HandshakeAction::Fail(handshake(n, e))),
        Ok(x) => x,
    };
    match phase {
        HandshakePhase::Probe => {
            match crate::probe::classify(x.as_slice()) {
                ProtocolKind::Hd2020 => {
                    (HandshakePhase::Probe, HandshakeAction::Connected(ProtocolKind::Hd2020, String::new(), DeviceInfo::default()))
                },
                ProtocolKind::Sdk2 => {
                    proof {
                        reveal_strlit("");
                    }
                    match crate::sdk::envelope::encode_request(PLACEHOLDER_GUID, SdkMethod::GetIfVersion, "") {
                        Ok(req) => (HandshakePhase::Identity, HandshakeAction::SendSdk(2, req)),
                        Err(e) => (HandshakePhase::Probe, HandshakeAction::Fail(handshake(2, Error::Proto(e)))),
                    }
                },
            }
        },
        HandshakePhase::Identity => {
            match session_guid(x.as_slice()) {
                Err(e) => (HandshakePhase::Identity, HandshakeAction::Fail(handshake(2, e))),
                Ok(g) => {
                    match GetDeviceInfo.encode_request(g.as_str()) {
                        Ok(req) => (HandshakePhase::Info(g), HandshakeAction::SendSdk(3, req)),
                        Err(e) => (HandshakePhase::Identity, HandshakeAction::Fail(handshake(3, Error::Proto(e)))),
                    }
                },
            }
        },
        HandshakePhase::Info(g) => {
            match DeviceInfo::decode(x.as_slice()) {
                Err(e) => (HandshakePhase::Info(g), HandshakeAction::Fail(handshake(3, Error::Proto(e)))),
                Ok(info) => (HandshakePhase::Info(String::new()), HandshakeAction::Connected(ProtocolKind::Sdk2, g, info)),
            }
        },
    }
}

/// What reading the session guid out of a reply document gives: the
/// envelope's failure, then the device's failure, then the `<sdk guid>`, or
/// an XML error when it is missing.
pub open spec fn session_guid_outcome(bytes: Seq<u8>, res: Result<String, Error>) -> bool {
    match reply_outcome(bytes) {
        ReplyOutcome::Unread => res matches Err(Error::Proto(ProtoError::Xml(_))),
        ReplyOutcome::Stopped(HeadErr::Unknown(name)) => res matches Err(Error::Proto(ProtoError::Xml(m))) && m@
            == unknown_method_msg(name),
        ReplyOutcome::Stopped(HeadErr::Unreadable) => res matches Err(Error::Proto(ProtoError::Xml(_))),
        ReplyOutcome::Head((g, None, r), fs) => res matches Err(Error::Proto(ProtoError::Xml(m))) && m@ == no_method_msg(),
        ReplyOutcome::Head((g, Some(m), r), fs) => if !result_ok(r) {
            res matches Err(Error::Proto(ProtoError::SdkError { method, result })) && method@ == method_name(m)
                && r == Some(result@)
        } else {
            match g {
                Some(x) => res matches Ok(s) && s@ == x,
                None => res matches Err(Error::Proto(ProtoError::Xml(msg))) && msg@ == no_guid_msg(),
            }
        },
    }
}

/// Pull the session guid out of a `GetIFVersion` reply document, surfacing
/// any device error first.
pub fn session_guid(reply_xml: &[u8]) -> (res: Result<String, Error>)
    ensures
        session_guid_outcome(reply_xml@, res),
{
    let reply = match decode_reply(reply_xml) {
        Ok(r) => r,
        Err(e) => return Err(Error::Proto(e)),
    };
    guid_of_reply(&reply)
}

/// What checking a command's reply gives: the envelope's or the device's
/// failure, or `Ok`.
pub open spec fn reply_checked(bytes: Seq<u8>, res: Result<(), Error>) -> bool {
    match res {
        Ok(()) => decodes_to(bytes, Ok::<(), ProtoError>(()), |f: ElementFull| true, |v: (), es: Seq<ElementView>| true),
        Err(e) => e matches Error::Proto(pe) && decodes_to(bytes, Err::<(), ProtoError>(pe), |f: ElementFull| true, |v: (), es: Seq<ElementView>| true),
    }
}

/// Decode a command's reply and surface any device error.
pub fn check_reply(reply_xml: &[u8]) -> (res: Result<(), Error>)
    ensures
        reply_checked(reply_xml@, res),
{
    match crate::sdk::messages::decode_checked(reply_xml) {
        Ok(_) => Ok(()),
        Err(e) => Err(Error::Proto(e)),
    }
}

/// The screen `send_text` shows: one program named `text`, played once,
/// with one full-panel area holding the text.
pub open spec fn text_screen_view(text: Seq<char>, config: crate::screen::config::TextConfigView, width: u32, height: u32) -> Seq<ProgramView> {
    seq![ProgramView {
        name: "text"@,
        play: PlayControl::Count(1),
        areas: seq![AreaView { x: 0, y: 0, width, height, items: seq![ItemView::Text(text, config)] }],
    }]
}

/// Build the one-program, one-area screen that shows `text` full-panel on a
/// `width × height` device.
pub fn text_screen(text: &str, config: TextConfig, width: u32, height: u32) -> (s: Screen)
    ensures
        s@ == text_screen_view(text@, config@, width, height),
{
    let ghost cv = config@;
    let mut area = Area::full_screen(width, height);
    area.add_text(text, config);
    let mut program = Program::new("text");
    program.push_area(area);
    let mut screen = Screen::new();
    screen.push_program(program);
    assert(screen@ =~= text_screen_view(text@, cv, width, height));
    screen
}

/// The `AddProgram` request that pushes `screen`, replacing all programs.
pub fn screen_request(screen: &Screen, guid: &str) -> (res: Result<Vec<u8>, Error>)
    requires
        screen_fits(screen@),
    ensures
        res matches Ok(b) && b@ == vstd::utf8::encode_utf8(
            envelope_text(guid@, "in"@, SdkMethod::AddProgram, None, render(screen_events(screen@))),
        ),
{
    let fragment = match screen.to_program_xml() {
        Ok(f) => f,
        Err(e) => return Err(Error::Proto(e)),
    };
    let push = ProgramPush::add(fragment.as_str());
    match push.encode(guid) {
        Ok(b) => Ok(b),
        Err(e) => Err(Error::Proto(e)),
    }
}

} // verus!
