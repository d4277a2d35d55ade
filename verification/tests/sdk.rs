use huidu::error::ProtoError;
use huidu::sdk::envelope::{decode_reply, encode_reply, encode_request};
use huidu::sdk::method::SdkMethod;
use huidu::sdk::result::SdkResult;
use huidu::sdk::xml::{extract_element, XmlWriter};

#[test]
fn every_method_round_trips_through_its_string() {
    let all = [
        SdkMethod::GetIfVersion,
        SdkMethod::GetDeviceInfo,
        SdkMethod::GetEth0Info,
        SdkMethod::SetEth0Info,
        SdkMethod::GetWifiInfo,
        SdkMethod::SetWifiInfo,
        SdkMethod::AddProgram,
        SdkMethod::UpdateProgram,
        SdkMethod::DeleteProgram,
        SdkMethod::GetProgram,
        SdkMethod::GetTimeInfo,
        SdkMethod::SetTimeInfo,
        SdkMethod::GetLuminancePloy,
        SdkMethod::SetLuminancePloy,
        SdkMethod::GetSwitchTime,
        SdkMethod::SetSwitchTime,
        SdkMethod::GetFiles,
        SdkMethod::DeleteFiles,
        SdkMethod::GetBootLogo,
        SdkMethod::SetBootLogoName,
        SdkMethod::ClearBootLogo,
        SdkMethod::GetSdkTcpServer,
        SdkMethod::SetSdkTcpServer,
        SdkMethod::OpenScreen,
        SdkMethod::CloseScreen,
    ];
    for m in all {
        assert_eq!(SdkMethod::from_str(m.as_str()).unwrap(), m);
    }
}

#[test]
fn acronym_casing_is_preserved() {
    assert_eq!(SdkMethod::GetIfVersion.as_str(), "GetIFVersion");
    assert_eq!(SdkMethod::GetSdkTcpServer.as_str(), "GetSDKTcpServer");
}

#[test]
fn unknown_method_errors() {
    assert!(SdkMethod::from_str("NoSuchMethod").is_err());
}

#[test]
fn unknown_method_names_the_method() {
    match SdkMethod::from_str("getdeviceinfo") {
        Err(ProtoError::Xml(m)) => assert_eq!(m, "unknown SDK method: getdeviceinfo"),
        other => panic!("expected an XML error, got {other:?}"),
    }
}

#[test]
fn success_is_recognized() {
    assert!(SdkResult::success().is_success());
    assert!(SdkResult::from("kSuccess").is_success());
}

#[test]
fn unknown_code_round_trips_and_is_not_success() {
    let r = SdkResult::from("kParseXmlFailed");
    assert!(!r.is_success());
    assert_eq!(r.as_str(), "kParseXmlFailed");
    assert_eq!(r.to_string(), "kParseXmlFailed");
}

#[test]
fn request_round_trips_guid_and_method() {
    let bytes = encode_request("abc-123", SdkMethod::OpenScreen, "").unwrap();
    let reply = decode_reply(&bytes).unwrap();
    assert_eq!(reply.guid.as_deref(), Some("abc-123"));
    assert_eq!(reply.method, SdkMethod::OpenScreen);
    assert!(reply.result.is_none());
    reply.check().unwrap();
}

#[test]
fn reply_carries_result_and_checks_success() {
    let bytes = encode_reply("g", SdkMethod::GetDeviceInfo, &SdkResult::success(), "").unwrap();
    let reply = decode_reply(&bytes).unwrap();
    assert_eq!(reply.method, SdkMethod::GetDeviceInfo);
    assert!(reply.result.as_ref().unwrap().is_success());
    reply.check().unwrap();
}

#[test]
fn failure_result_surfaces_as_sdk_error() {
    let bytes = encode_reply("g", SdkMethod::SetEth0Info, &SdkResult::from("kParseXmlFailed"), "").unwrap();
    let reply = decode_reply(&bytes).unwrap();
    let err = reply.check().unwrap_err();
    assert!(matches!(err, ProtoError::SdkError { .. }));
}

#[test]
fn guid_attribute_is_escaped() {
    // A guid with an ampersand must survive the escape/unescape round-trip.
    let bytes = encode_request("a&b<c>", SdkMethod::CloseScreen, "").unwrap();
    let reply = decode_reply(&bytes).unwrap();
    assert_eq!(reply.guid.as_deref(), Some("a&b<c>"));
}

#[test]
fn request_document_text_is_exact() {
    let bytes = encode_request("g", SdkMethod::GetFiles, "<x/>").unwrap();
    assert_eq!(
        String::from_utf8(bytes).unwrap(),
        "<?xml version=\"1.0\" encoding=\"utf-8\"?><sdk guid=\"g\"><in method=\"GetFiles\"><x/></in></sdk>"
    );
}

#[test]
fn decode_reply_rejects_unknown_method_and_missing_method() {
    let unknown = b"<sdk guid=\"g\"><out method=\"Bogus\" result=\"kSuccess\"/></sdk>";
    assert!(matches!(decode_reply(unknown), Err(ProtoError::Xml(_))));
    let missing = b"<sdk guid=\"g\"></sdk>";
    match decode_reply(missing) {
        Err(ProtoError::Xml(m)) => assert_eq!(m, "envelope has no <in>/<out> method"),
        _ => panic!("expected the missing-method error"),
    }
    assert!(matches!(decode_reply(&[0xff, 0xfe]), Err(ProtoError::Xml(_))));
}

#[test]
fn decode_reply_strips_a_leading_bom() {
    let mut bytes = vec![0xEF, 0xBB, 0xBF];
    bytes.extend_from_slice(b"<sdk guid=\"g\"><out method=\"OpenScreen\" result=\"kSuccess\"/></sdk>");
    let reply = decode_reply(&bytes).unwrap();
    assert_eq!(reply.method, SdkMethod::OpenScreen);
    assert!(reply.raw.starts_with("<sdk"));
}

#[test]
fn writer_escapes_attributes_and_text() {
    let mut x = XmlWriter::new();
    x.open("a", &[("k", "1 < 2 & \"q\"")]);
    x.text("it's <b>");
    x.close("a");
    assert_eq!(x.into_string(), "<a k=\"1 &lt; 2 &amp; &quot;q&quot;\">it&apos;s &lt;b&gt;</a>");
}

#[test]
fn extract_element_lifts_the_first_matching_subtree() {
    let doc = "<sdk><in><screen a=\"1\"><p/><q>t</q></screen><screen/></in></sdk>";
    assert_eq!(extract_element(doc, "screen").unwrap().as_deref(), Some("<screen a=\"1\"><p/><q>t</q></screen>"));
    assert_eq!(extract_element(doc, "nothing").unwrap(), None);
}

#[test]
fn extract_element_takes_the_first_match_verbatim() {
    let doc = r#"<a><b/><screen k="1"><p/>t</screen><screen/></a>"#;
    assert_eq!(extract_element(doc, "screen").unwrap().as_deref(), Some(r#"<screen k="1"><p/>t</screen>"#));
    assert_eq!(extract_element("<a><b/></a>", "screen").unwrap(), None);
    assert_eq!(extract_element("<a><screen/></a>", "screen").unwrap().as_deref(), Some("<screen/>"));
}

#[test]
fn local_name_drops_the_prefix() {
    assert_eq!(huidu::sdk::xml::local_name("ns:screen"), "screen");
    assert_eq!(huidu::sdk::xml::local_name("screen"), "screen");
}

#[test]
fn extract_element_writes_the_closing_tag_from_its_name() {
    let doc = "<a><screen k=\"1\"><p/>t</screen ></a>";
    assert_eq!(extract_element(doc, "screen").unwrap().as_deref(), Some("<screen k=\"1\"><p/>t</screen>"));
}

#[test]
fn extract_element_skips_a_leading_bom() {
    let doc = "\u{FEFF}<a><b/><screen k=\"1\"><p/></screen></a>";
    assert_eq!(extract_element(doc, "screen").unwrap().as_deref(), Some("<screen k=\"1\"><p/></screen>"));
}

#[test]
fn header_error_wins_over_a_later_syntax_error() {
    // The header is read as each element is reached, so an unknown method
    // is reported even though the document breaks further on.
    let doc = b"<?xml version=\"1.0\"?><sdk guid=\"g\"><out method=\"Bogus\"></sdk>";
    match decode_reply(doc) {
        Err(ProtoError::Xml(m)) => assert_eq!(m, "unknown SDK method: Bogus"),
        other => panic!("expected the unknown-method error, got {other:?}"),
    }
    // A known method does not save a document that breaks later: the
    // reader's own error comes back.
    let doc = b"<?xml version=\"1.0\"?><sdk guid=\"g\"><out method=\"GetDeviceInfo\"></sdk>";
    match decode_reply(doc) {
        Err(ProtoError::Xml(m)) => assert!(!m.starts_with("unknown SDK method") && !m.starts_with("envelope has no")),
        other => panic!("expected the reader's error, got {other:?}"),
    }
    // Nor does an unreadable attribute after the document has broken.
    let doc = b"<?xml version=\"1.0\"?><sdk guid=\"g\"></out><out method=\"Bogus\"/></sdk>";
    match decode_reply(doc) {
        Err(ProtoError::Xml(m)) => assert!(!m.starts_with("unknown SDK method")),
        other => panic!("expected the reader's error, got {other:?}"),
    }
}
