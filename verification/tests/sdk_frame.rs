use huidu::error::ProtoError;
use huidu::sdk_frame::{fragment_xml, SdkFragment, SdkReassembler};
use huidu::transport::sdk_request_frames;
use huidu::frame::CmdCode;

#[test]
fn parse_reads_header_and_chunk() {
    // total_len = 5, offset = 0, chunk = "hello".
    let payload = [
        0x05, 0x00, 0x00, 0x00, // total_len
        0x00, 0x00, 0x00, 0x00, // offset
        b'h', b'e', b'l', b'l', b'o',
    ];
    let frag = SdkFragment::parse(&payload).unwrap();
    assert_eq!(frag.total_len, 5);
    assert_eq!(frag.offset, 0);
    assert_eq!(&frag.xml_chunk[..], b"hello");
}

#[test]
fn parse_rejects_short_payload() {
    let err = SdkFragment::parse(&[0x00, 0x01, 0x02]).unwrap_err();
    assert!(matches!(err, ProtoError::ShortFrame { expected: 8, got: 3 }));
}

#[test]
fn encode_parse_roundtrips() {
    let frag = SdkFragment { total_len: 12, offset: 4, xml_chunk: b"world!".to_vec() };
    let bytes = frag.encode();
    assert_eq!(SdkFragment::parse(&bytes).unwrap(), frag);
}

#[test]
fn reassembles_single_fragment() {
    let mut r = SdkReassembler::new();
    let frag = SdkFragment { total_len: 5, offset: 0, xml_chunk: b"hello".to_vec() };
    assert_eq!(r.push(frag).unwrap().as_deref(), Some(&b"hello"[..]));
}

#[test]
fn reassembles_two_fragments() {
    let mut r = SdkReassembler::new();
    let first = SdkFragment { total_len: 10, offset: 0, xml_chunk: b"hello".to_vec() };
    let second = SdkFragment { total_len: 10, offset: 5, xml_chunk: b"world".to_vec() };
    assert!(r.push(first).unwrap().is_none());
    assert_eq!(r.push(second).unwrap().as_deref(), Some(&b"helloworld"[..]));
}

#[test]
fn rejects_out_of_order_fragment() {
    let mut r = SdkReassembler::new();
    let first = SdkFragment { total_len: 10, offset: 0, xml_chunk: b"hello".to_vec() };
    r.push(first).unwrap();
    let bad = SdkFragment {
        total_len: 10,
        offset: 7, // expected 5
        xml_chunk: b"xyz".to_vec(),
    };
    let err = r.push(bad).unwrap_err();
    assert!(matches!(err, ProtoError::FragmentGap { expected: 5, got: 7 }));
}

#[test]
fn rejects_overflowing_fragment() {
    let mut r = SdkReassembler::new();
    let frag = SdkFragment { total_len: 3, offset: 0, xml_chunk: b"toolong".to_vec() };
    let err = r.push(frag).unwrap_err();
    assert!(matches!(err, ProtoError::FragmentOverflow { total: 3, offset: 0, chunk: 7 }));
}

#[test]
fn resets_after_completion() {
    let mut r = SdkReassembler::new();
    let one = SdkFragment { total_len: 3, offset: 0, xml_chunk: b"abc".to_vec() };
    assert_eq!(r.push(one).unwrap().as_deref(), Some(&b"abc"[..]));
    // A fresh message reuses the same reassembler starting at offset 0.
    let two = SdkFragment { total_len: 2, offset: 0, xml_chunk: b"de".to_vec() };
    assert_eq!(r.push(two).unwrap().as_deref(), Some(&b"de"[..]));
}

#[test]
fn fragmenting_then_reassembling_gives_the_document_back() {
    let xml = b"<sdk guid=\"g\"><in method=\"GetDeviceInfo\"/></sdk>".to_vec();
    let frags = fragment_xml(&xml, 10).unwrap();
    assert_eq!(frags.len(), (xml.len() + 9) / 10);
    let mut r = SdkReassembler::new();
    let last = frags.len() - 1;
    for (i, f) in frags.into_iter().enumerate() {
        let out = r.push(f).unwrap();
        if i < last {
            assert!(out.is_none());
        } else {
            assert_eq!(out.unwrap(), xml);
        }
    }
}

#[test]
fn empty_document_travels_as_one_fragment_and_size_zero_means_one() {
    let frags = fragment_xml(b"", 8000).unwrap();
    assert_eq!(frags.len(), 1);
    assert_eq!(frags[0], SdkFragment { total_len: 0, offset: 0, xml_chunk: Vec::new() });
    let ones = fragment_xml(b"abc", 0).unwrap();
    assert_eq!(ones.len(), 3);
    assert_eq!(ones[2], SdkFragment { total_len: 3, offset: 2, xml_chunk: b"c".to_vec() });
}

#[test]
fn request_frames_are_sdk_cmd_frames_of_each_fragment() {
    let frames = sdk_request_frames(b"hello world", 6).unwrap();
    assert_eq!(frames.len(), 2);
    assert_eq!(frames[0].cmd, CmdCode::SdkCmd);
    assert_eq!(frames[1].payload, SdkFragment { total_len: 11, offset: 6, xml_chunk: b"world".to_vec() }.encode());
}
