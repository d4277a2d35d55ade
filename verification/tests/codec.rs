use huidu::codec::HuiduCodec;
use huidu::error::ProtoError;
use huidu::frame::{CmdCode, OwnedFrame};
use huidu::sdk_frame::SdkFragment;

#[test]
fn encodes_heartbeat() {
    let mut codec = HuiduCodec;
    let mut out: Vec<u8> = Vec::new();
    codec.encode(OwnedFrame::new(CmdCode::Heartbeat, Vec::new()), &mut out).unwrap();
    // len = 2 (cmd only), cmd = 0x2005, no payload.
    assert_eq!(&out[..], &[0x02, 0x00, 0x05, 0x20]);
}

#[test]
fn encode_decode_roundtrips_with_payload() {
    let mut codec = HuiduCodec;
    let frame = OwnedFrame::new(CmdCode::SdkCmd, b"abc".to_vec());
    let mut buf: Vec<u8> = Vec::new();
    codec.encode(frame.clone(), &mut buf).unwrap();
    let decoded = codec.decode(&mut buf).unwrap().unwrap();
    assert_eq!(decoded, frame);
    assert!(buf.is_empty());
}

#[test]
fn codec_decode_waits_for_full_frame() {
    let mut codec = HuiduCodec;
    // Full frame is 0x02 0x00 0x05 0x20; feed only the length prefix first.
    let mut buf: Vec<u8> = vec![0x02, 0x00];
    assert!(codec.decode(&mut buf).unwrap().is_none());
    buf.extend_from_slice(&[0x05, 0x20]);
    let frame = codec.decode(&mut buf).unwrap().unwrap();
    assert_eq!(frame.cmd, CmdCode::Heartbeat);
}

#[test]
fn decode_rejects_unknown_command() {
    let mut codec = HuiduCodec;
    // len = 2, cmd = 0x9999 (unknown).
    let mut buf: Vec<u8> = vec![0x02, 0x00, 0x99, 0x99];
    let err = codec.decode(&mut buf).unwrap_err();
    assert!(matches!(err, ProtoError::UnknownCmd(0x9999)));
    // The buffer is left intact at the frame boundary, not advanced mid-frame.
    assert_eq!(&buf[..], &[0x02, 0x00, 0x99, 0x99]);
}

#[test]
fn decode_handles_two_frames_in_one_buffer() {
    let mut codec = HuiduCodec;
    let mut buf: Vec<u8> = Vec::new();
    codec.encode(OwnedFrame::new(CmdCode::Heartbeat, Vec::new()), &mut buf).unwrap();
    codec.encode(OwnedFrame::new(CmdCode::HeartbeatReply, Vec::new()), &mut buf).unwrap();
    assert_eq!(codec.decode(&mut buf).unwrap().unwrap().cmd, CmdCode::Heartbeat);
    assert_eq!(codec.decode(&mut buf).unwrap().unwrap().cmd, CmdCode::HeartbeatReply);
    assert!(codec.decode(&mut buf).unwrap().is_none());
}

/// The captured heartbeat frame.
fn heartbeat_capture() -> Vec<u8> {
    vec![0x02, 0x00, 0x05, 0x20]
}

/// The captured `SdkCmd` frame carrying the one-fragment document `hello`.
fn sdk_hello_capture() -> Vec<u8> {
    let mut v = vec![0x0f, 0x00, 0x03, 0x20];
    v.extend_from_slice(&[0x05, 0x00, 0x00, 0x00, 0x00, 0x00, 0x00, 0x00]);
    v.extend_from_slice(b"hello");
    v
}

#[test]
fn heartbeat_golden_decodes() {
    let mut codec = HuiduCodec;
    let mut buf = heartbeat_capture();
    let frame = codec.decode(&mut buf).unwrap().unwrap();
    assert_eq!(frame.cmd, CmdCode::Heartbeat);
    assert!(frame.payload.is_empty());
    assert!(buf.is_empty());
}

#[test]
fn heartbeat_golden_reencodes() {
    let golden = heartbeat_capture();
    let mut codec = HuiduCodec;
    let mut out: Vec<u8> = Vec::new();
    codec.encode(OwnedFrame::new(CmdCode::Heartbeat, Vec::new()), &mut out).unwrap();
    assert_eq!(&out[..], &golden[..]);
}

#[test]
fn sdk_hello_golden_decodes_and_parses() {
    let mut codec = HuiduCodec;
    let mut buf = sdk_hello_capture();
    let frame = codec.decode(&mut buf).unwrap().unwrap();
    assert_eq!(frame.cmd, CmdCode::SdkCmd);
    let frag = SdkFragment::parse(&frame.payload).unwrap();
    assert_eq!(frag.total_len, 5);
    assert_eq!(frag.offset, 0);
    assert_eq!(&frag.xml_chunk[..], b"hello");
}

#[test]
fn decode_of_an_encoded_frame_gives_it_back_and_keeps_what_follows() {
    let mut codec = HuiduCodec;
    let frame = OwnedFrame::new(CmdCode::FileEndReply, vec![0x00, 0x00]);
    let mut buf: Vec<u8> = Vec::new();
    codec.encode(frame.clone(), &mut buf).unwrap();
    buf.extend_from_slice(&[0xaa, 0xbb]);
    assert_eq!(codec.decode(&mut buf).unwrap().unwrap(), frame);
    assert_eq!(&buf[..], &[0xaa, 0xbb]);
}

#[test]
fn decode_rejects_a_length_shorter_than_the_command() {
    let mut codec = HuiduCodec;
    let mut buf: Vec<u8> = vec![0x01, 0x00, 0x05];
    assert!(matches!(codec.decode(&mut buf).unwrap_err(), ProtoError::ShortFrame { .. }));
}
