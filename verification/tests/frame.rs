use huidu::error::ProtoError;
use huidu::frame::CmdCode;

#[test]
fn known_code_roundtrips_through_u16() {
    let code = CmdCode::from_u16(0x2005).unwrap();
    assert_eq!(code, CmdCode::Heartbeat);
    assert_eq!(code.as_u16(), 0x2005);
}

#[test]
fn unknown_code_errors() {
    let err = CmdCode::from_u16(0x9999).unwrap_err();
    assert!(matches!(err, ProtoError::UnknownCmd(0x9999)));
}

#[test]
fn every_code_roundtrips_through_its_word() {
    let all = [
        CmdCode::VersionAsk,
        CmdCode::VersionReply,
        CmdCode::SdkCmd,
        CmdCode::SdkReply,
        CmdCode::Heartbeat,
        CmdCode::HeartbeatReply,
        CmdCode::FileStartAsk,
        CmdCode::FileStartReply,
        CmdCode::FileContentAsk,
        CmdCode::FileContentReply,
        CmdCode::FileEndAsk,
        CmdCode::FileEndReply,
    ];
    for c in all {
        assert_eq!(CmdCode::from_u16(c.as_u16()).unwrap(), c);
    }
    assert_eq!(CmdCode::FileStartAsk.as_u16(), 0x8001);
    assert_eq!(CmdCode::SdkReply.as_u16(), 0x2004);
}
