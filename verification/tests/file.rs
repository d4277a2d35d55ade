use huidu::error::ProtoError;
use huidu::file::{FileContentAsk, FileContentReply, FileEndAsk, FileEndReply, FileStartAsk, FileStartReply, MD5_LEN};

#[test]
fn start_ask_round_trips() {
    let ask = FileStartAsk {
        name: "clip.mp4".to_string(),
        file_type: "video".to_string(),
        size: 1_048_576,
        md5: [0xAB; MD5_LEN],
    };
    let bytes = ask.encode().unwrap();
    assert_eq!(FileStartAsk::parse(&bytes).unwrap(), ask);
}

#[test]
fn start_reply_round_trips() {
    let reply = FileStartReply { result: 0, resume_offset: 4096 };
    assert_eq!(FileStartReply::parse(&reply.encode()).unwrap(), reply);
}

#[test]
fn content_ask_round_trips() {
    let ask = FileContentAsk { offset: 8000, data: b"the quick brown fox".to_vec() };
    let bytes = ask.encode().unwrap();
    assert_eq!(FileContentAsk::parse(&bytes).unwrap(), ask);
}

#[test]
fn content_reply_round_trips() {
    let reply = FileContentReply { result: 0, received: 16000 };
    assert_eq!(FileContentReply::parse(&reply.encode()).unwrap(), reply);
}

#[test]
fn end_frames_round_trip() {
    let ask = FileEndAsk { md5: [0x11; MD5_LEN] };
    assert_eq!(FileEndAsk::parse(&ask.encode()).unwrap(), ask);
    let reply = FileEndReply { result: 0 };
    assert_eq!(FileEndReply::parse(&reply.encode()).unwrap(), reply);
}

#[test]
fn parse_rejects_truncated_payload() {
    // A start reply needs 10 bytes; give it 4.
    let err = FileStartReply::parse(&[0, 0, 0, 0]).unwrap_err();
    assert!(matches!(err, ProtoError::ShortFrame { .. }));
}

#[test]
fn parse_rejects_short_content_data() {
    // Header claims 100 data bytes but only 3 follow.
    let mut buf: Vec<u8> = Vec::new();
    buf.extend_from_slice(&0u64.to_le_bytes());
    buf.extend_from_slice(&100u32.to_le_bytes());
    buf.extend_from_slice(&[1, 2, 3]);
    let err = FileContentAsk::parse(&buf).unwrap_err();
    assert!(matches!(err, ProtoError::ShortFrame { .. }));
}

#[test]
fn string_field_survives_multibyte_utf8() {
    let ask = FileStartAsk {
        name: "café-λ.png".to_string(),
        file_type: "image".to_string(),
        size: 10,
        md5: [0; MD5_LEN],
    };
    let bytes = ask.encode().unwrap();
    assert_eq!(FileStartAsk::parse(&bytes).unwrap(), ask);
}

#[test]
fn start_reply_layout_is_little_endian_code_then_offset() {
    let reply = FileStartReply { result: 0x0102, resume_offset: 0x0a0b };
    assert_eq!(reply.encode(), vec![0x02, 0x01, 0x0b, 0x0a, 0, 0, 0, 0, 0, 0]);
}

#[test]
fn start_ask_rejects_bytes_that_are_not_utf8() {
    // name: length 1, byte 0xff; file type: empty; size; md5.
    let mut buf: Vec<u8> = vec![0x01, 0x00, 0xff, 0x00, 0x00];
    buf.extend_from_slice(&7u64.to_le_bytes());
    buf.extend_from_slice(&[0u8; MD5_LEN]);
    assert!(FileStartAsk::parse(&buf).is_err());
}
