use huidu::device::{
    check_reply, ensure_protocol, guid_of_reply, handshake, handshake_step, screen_request, session_guid, text_screen,
    HandshakeAction, HandshakePhase,
};
use huidu::sdk::messages::device_info::DeviceInfo;
use huidu::error::{Error, ProtoError, ProtocolKind, UploadStage};
use huidu::file::{FileContentReply, FileEndReply, FileStartReply};
use huidu::frame::{CmdCode, OwnedFrame};
use huidu::hd2020::START;
use huidu::probe::classify;
use huidu::screen::TextConfig;
use huidu::sdk::envelope::{decode_reply, encode_reply};
use huidu::sdk::messages::program::ProgramPush;
use huidu::sdk::method::SdkMethod;
use huidu::sdk::result::SdkResult;
use huidu::transport::expect_reply;
use huidu::upload::{
    chunk_len, chunk_verdict, end_verdict, file_type_for_extension, resume_offset, ChunkVerdict, Upload, UploadAction,
    UploadPhase, UploadProgress,
};
use huidu::config::DeviceConfig;
use huidu::digest::Md5Stream;

#[test]
fn ensure_protocol_allows_the_matching_protocol() {
    assert!(ensure_protocol(ProtocolKind::Sdk2, ProtocolKind::Sdk2).is_ok());
    assert!(ensure_protocol(ProtocolKind::Hd2020, ProtocolKind::Hd2020).is_ok());
}

#[test]
fn ensure_protocol_rejects_sdk_command_on_hd2020() {
    let err = ensure_protocol(ProtocolKind::Hd2020, ProtocolKind::Sdk2).unwrap_err();
    assert!(matches!(err, Error::UnsupportedForProtocol(ProtocolKind::Hd2020)));
}

#[test]
fn ensure_protocol_rejects_hd2020_command_on_sdk() {
    let err = ensure_protocol(ProtocolKind::Sdk2, ProtocolKind::Hd2020).unwrap_err();
    assert!(matches!(err, Error::UnsupportedForProtocol(ProtocolKind::Sdk2)));
}

#[test]
fn empty_reply_is_sdk2() {
    assert_eq!(classify(&[]), ProtocolKind::Sdk2);
}

#[test]
fn sdk2_marked_reply_is_sdk2() {
    // Any non-0xA5 lead byte stays on the SDK 2.0 path.
    assert_eq!(classify(&[0x00, 0x01]), ProtocolKind::Sdk2);
    assert_eq!(classify(&[0x20, 0x02]), ProtocolKind::Sdk2);
}

#[test]
fn hd2020_start_byte_is_hd2020() {
    assert_eq!(classify(&[START]), ProtocolKind::Hd2020);
    assert_eq!(classify(&[START, 0x01, 0x02]), ProtocolKind::Hd2020);
}

#[test]
fn handshake_tags_the_phase() {
    match handshake(2, Error::ConnectionClosed) {
        Error::Handshake { phase, source } => {
            assert_eq!(phase, 2);
            assert!(matches!(*source, Error::ConnectionClosed));
        },
        _ => panic!("expected a handshake error"),
    }
}

#[test]
fn session_guid_comes_from_the_sdk_element() {
    let ok = encode_reply("sess-abc-123", SdkMethod::GetIfVersion, &SdkResult::success(), "").unwrap();
    assert_eq!(session_guid(&ok).unwrap(), "sess-abc-123");
    let failed = encode_reply("g", SdkMethod::GetIfVersion, &SdkResult::from("kParseXmlFailed"), "").unwrap();
    assert!(matches!(session_guid(&failed), Err(Error::Proto(ProtoError::SdkError { .. }))));
    let no_guid = b"<sdk><out method=\"GetIFVersion\" result=\"kSuccess\"/></sdk>";
    let reply = decode_reply(no_guid).unwrap();
    match guid_of_reply(&reply) {
        Err(Error::Proto(ProtoError::Xml(m))) => assert_eq!(m, "GetIFVersion reply carried no session guid"),
        _ => panic!("expected the missing-guid error"),
    }
}

#[test]
fn check_reply_surfaces_device_errors() {
    let ok = encode_reply("g", SdkMethod::AddProgram, &SdkResult::success(), "").unwrap();
    assert!(check_reply(&ok).is_ok());
    let bad = encode_reply("g", SdkMethod::AddProgram, &SdkResult::from("kParseXmlFailed"), "").unwrap();
    assert!(matches!(check_reply(&bad), Err(Error::Proto(ProtoError::SdkError { .. }))));
}

#[test]
fn send_text_screen_is_one_full_panel_program() {
    let screen = text_screen("Lobby", TextConfig::default(), 128, 64);
    let xml = screen.to_program_xml().unwrap();
    assert!(xml.contains("name=\"text\""));
    assert!(xml.contains("<rectangle x=\"0\" y=\"0\" width=\"128\" height=\"64\"/>"));
    assert!(xml.contains("<string>Lobby</string>"));
}

#[test]
fn screen_request_is_an_add_program_carrying_the_tree() {
    let screen = text_screen("Hello & <World>", TextConfig::default(), 64, 32);
    let bytes = screen_request(&screen, "sess").unwrap();
    let push = ProgramPush::decode(&bytes).unwrap();
    assert_eq!(push.method(), SdkMethod::AddProgram);
    assert_eq!(push.screen, screen.to_program_xml().unwrap());
    let raw = String::from_utf8(bytes).unwrap();
    assert!(raw.contains("method=\"AddProgram\""));
    assert!(raw.contains("<string>Hello &amp; &lt;World&gt;</string>"));
}

#[test]
fn expect_reply_names_both_words() {
    let reply = OwnedFrame::new(CmdCode::HeartbeatReply, Vec::new());
    assert!(expect_reply(&reply, CmdCode::HeartbeatReply).is_ok());
    match expect_reply(&reply, CmdCode::SdkReply) {
        Err(Error::UnexpectedReply { expected, got }) => {
            assert_eq!(expected, 0x2004);
            assert_eq!(got, 0x2006);
        },
        _ => panic!("expected an unexpected-reply error"),
    }
}

#[test]
fn upload_progress_completes_at_the_total() {
    assert!(UploadProgress { bytes_sent: 10, total_bytes: 10 }.is_complete());
    assert!(!UploadProgress { bytes_sent: 9, total_bytes: 10 }.is_complete());
    assert!(UploadProgress { bytes_sent: 0, total_bytes: 0 }.is_complete());
}

#[test]
fn file_types_follow_the_extension_in_any_case() {
    assert_eq!(file_type_for_extension("PNG"), "image");
    assert_eq!(file_type_for_extension("jpeg"), "image");
    assert_eq!(file_type_for_extension("Mkv"), "video");
    assert_eq!(file_type_for_extension("txt"), "file");
    assert_eq!(file_type_for_extension(""), "file");
}

#[test]
fn resume_offset_is_capped_and_rejections_name_the_start_stage() {
    assert_eq!(resume_offset(&FileStartReply { result: 0, resume_offset: 8000 }, 20000).unwrap(), 8000);
    assert_eq!(resume_offset(&FileStartReply { result: 0, resume_offset: 30000 }, 20000).unwrap(), 20000);
    assert!(matches!(
        resume_offset(&FileStartReply { result: 7, resume_offset: 0 }, 20000),
        Err(Error::Upload { stage: UploadStage::Start, code: 7 })
    ));
}

#[test]
fn rejected_chunks_retry_then_fail_at_the_content_stage() {
    let ok = FileContentReply { result: 0, received: 4000 };
    let nack = FileContentReply { result: 99, received: 0 };
    assert!(matches!(chunk_verdict(&ok, 3, 3), ChunkVerdict::Accepted));
    assert!(matches!(chunk_verdict(&nack, 0, 3), ChunkVerdict::Retry(1)));
    assert!(matches!(chunk_verdict(&nack, 2, 3), ChunkVerdict::Retry(3)));
    assert!(matches!(
        chunk_verdict(&nack, 3, 3),
        ChunkVerdict::Rejected(Error::Upload { stage: UploadStage::Content, code: 99 })
    ));
    assert!(end_verdict(&FileEndReply { result: 0 }).is_ok());
    assert!(matches!(end_verdict(&FileEndReply { result: 5 }), Err(Error::Upload { stage: UploadStage::End, code: 5 })));
}

#[test]
fn config_defaults() {
    let c = DeviceConfig::default();
    assert_eq!(c.timeout, std::time::Duration::from_secs(5));
    assert_eq!(c.heartbeat, std::time::Duration::from_secs(30));
    assert_eq!((c.upload_chunk_size, c.sdk_fragment_size, c.upload_retries), (8000, 8000, 3));
    assert_eq!(chunk_len(0), 1);
    assert_eq!(chunk_len(c.upload_chunk_size), 8000);
}

#[test]
fn streamed_md5_is_the_digest_of_everything_fed() {
    let mut s = Md5Stream::new();
    s.update(b"a");
    s.update(b"bc");
    assert_eq!(
        s.finalize(),
        [0x90, 0x01, 0x50, 0x98, 0x3c, 0xd2, 0x4f, 0xb0, 0xd6, 0x96, 0x3f, 0x7d, 0x28, 0xe1, 0x7f, 0x72]
    );
    let empty = Md5Stream::new().finalize();
    assert_eq!(empty[0], 0xd4);
    assert_eq!(empty[15], 0x7e);
}

/// Drive an upload of `size` bytes against canned replies, returning the
/// reported progress and how the upload ended.
fn drive(size: u64, retries: u32, resume: u64, chunk: u64, content_results: &[u16], end_result: u16) -> (Vec<u64>, usize, Result<(), Error>) {
    let mut up = Upload::new(size, retries);
    let mut action = up.on_start_reply(&FileStartReply { result: 0, resume_offset: resume });
    let mut reported = Vec::new();
    let mut sends = 0;
    let mut replies = content_results.iter();
    loop {
        action = match action {
            UploadAction::Report(p) => {
                reported.push(p.bytes_sent);
                up.next()
            },
            UploadAction::Read { offset } => up.on_read(chunk.min(size - offset)),
            UploadAction::SendChunk { .. } => {
                sends += 1;
                let result = *replies.next().unwrap_or(&0);
                up.on_content_reply(&FileContentReply { result, received: 0 })
            },
            UploadAction::SendEnd => up.on_end_reply(&FileEndReply { result: end_result }),
            UploadAction::Fail(e) => return (reported, sends, Err(e)),
            UploadAction::Finish => return (reported, sends, Ok(())),
        };
    }
}

#[test]
fn upload_walks_the_file_in_chunks_from_the_resume_offset() {
    let (reported, sends, end) = drive(20000, 3, 0, 8000, &[], 0);
    assert_eq!(reported, vec![0, 8000, 16000, 20000]);
    assert_eq!(sends, 3);
    assert!(end.is_ok());
    let (resumed, sends, _) = drive(20000, 3, 8000, 8000, &[], 0);
    assert_eq!(resumed, vec![8000, 16000, 20000]);
    assert_eq!(sends, 2);
    let (complete, sends, _) = drive(20000, 3, 20000, 8000, &[], 0);
    assert_eq!(complete, vec![20000]);
    assert_eq!(sends, 0);
    let (empty, sends, _) = drive(0, 3, 0, 8000, &[], 0);
    assert_eq!(empty, vec![0]);
    assert_eq!(sends, 0);
}

#[test]
fn upload_retries_then_gives_up_with_the_device_code() {
    let (reported, sends, end) = drive(4000, 3, 0, 8000, &[9, 9, 0], 0);
    assert_eq!(reported, vec![0, 4000]);
    assert_eq!(sends, 3);
    assert!(end.is_ok());
    let (_, sends, end) = drive(4000, 3, 0, 8000, &[99, 99, 99, 99], 0);
    assert_eq!(sends, 4);
    assert!(matches!(end, Err(Error::Upload { stage: UploadStage::Content, code: 99 })));
    let (_, _, end) = drive(4000, 3, 0, 8000, &[], 5);
    assert!(matches!(end, Err(Error::Upload { stage: UploadStage::End, code: 5 })));
    let mut up = Upload::new(10, 3);
    assert!(matches!(
        up.on_start_reply(&FileStartReply { result: 2, resume_offset: 0 }),
        UploadAction::Fail(Error::Upload { stage: UploadStage::Start, code: 2 })
    ));
    assert_eq!(up.phase, UploadPhase::Done);
}

#[test]
fn handshake_connects_hd2020_at_once() {
    let (_, action) = handshake_step(HandshakePhase::Probe, Ok(vec![START, 0x01]));
    match action {
        HandshakeAction::Connected(k, guid, info) => {
            assert_eq!(k, ProtocolKind::Hd2020);
            assert_eq!(guid, "");
            assert_eq!(info, DeviceInfo::default());
        }
        _ => panic!("an HD2020 probe reply connects at once"),
    }
}

#[test]
fn handshake_runs_the_sdk_phases() {
    let (phase, action) = handshake_step(HandshakePhase::Probe, Ok(Vec::new()));
    let request = match action {
        HandshakeAction::SendSdk(2, r) => r,
        _ => panic!("an SDK probe reply asks GetIFVersion"),
    };
    assert!(String::from_utf8(request).unwrap().contains("GetIFVersion"));
    let reply = encode_reply("sess-1", SdkMethod::GetIfVersion, &SdkResult::success(), "").unwrap();
    let (phase, action) = handshake_step(phase, Ok(reply));
    let request = match action {
        HandshakeAction::SendSdk(3, r) => r,
        _ => panic!("the guid reply asks GetDeviceInfo"),
    };
    let text = String::from_utf8(request).unwrap();
    assert!(text.contains("GetDeviceInfo") && text.contains("sess-1"));
    let mut info = DeviceInfo::default();
    info.model = "C16".to_string();
    info.screen_width = 64;
    let reply = info.encode_reply("sess-1", &SdkResult::success()).unwrap();
    match handshake_step(phase, Ok(reply)).1 {
        HandshakeAction::Connected(k, guid, got) => {
            assert_eq!(k, ProtocolKind::Sdk2);
            assert_eq!(guid, "sess-1");
            assert_eq!(got, info);
        }
        _ => panic!("the info reply completes the handshake"),
    }
}

#[test]
fn handshake_failures_carry_their_phase() {
    let fail = |phase: HandshakePhase, reply: Result<Vec<u8>, Error>| match handshake_step(phase, reply).1 {
        HandshakeAction::Fail(Error::Handshake { phase, .. }) => phase,
        _ => panic!("expected a handshake failure"),
    };
    assert_eq!(fail(HandshakePhase::Probe, Err(Error::ConnectionClosed)), 1);
    assert_eq!(fail(HandshakePhase::Identity, Err(Error::ConnectionClosed)), 2);
    let failed = encode_reply("g", SdkMethod::GetIfVersion, &SdkResult::from("kParseXmlFailed"), "").unwrap();
    assert_eq!(fail(HandshakePhase::Identity, Ok(failed)), 2);
    let failed = encode_reply("g", SdkMethod::GetDeviceInfo, &SdkResult::from("kParseXmlFailed"), "").unwrap();
    assert_eq!(fail(HandshakePhase::Info("g".to_string()), Ok(failed)), 3);
    assert_eq!(fail(HandshakePhase::Info("g".to_string()), Ok(b"<sdk".to_vec())), 3);
}
