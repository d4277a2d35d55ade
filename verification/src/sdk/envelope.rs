//! The `<sdk guid><in|out method result>…</in|out></sdk>` command envelope.
//!
//! [`encode_request`] wraps a body into an `<in>` request; [`encode_reply`]
//! wraps one into an `<out>` reply. [`decode_reply`] pulls the guid, method
//! and result back out and keeps the document's elements so a message body
//! can scan them for its own.

use vstd::prelude::*;
use crate::error::ProtoError;
use crate::sdk::method::{SdkMethod, method_name, unknown_method_msg};
use crate::sdk::result::{SdkResult, success_code};
use crate::sdk::xml::{XmlWriter, XmlEvent, XmlElement, ElementView, AttrsView, render, decl_text,
    attr, attr_value, is_named, elements_view, read_elements, scan_prefix, scan_failed, lemma_scan_prefix, xml_scan, scan, lemma_scan_take, as_str, without_bom,
    elements_of, lemma_elements_append, lemma_scan_append, xml_elements, doc_of, ElementFull, elements_full, cooked, cooked_all, clean_full, clean_all, readable, lemma_clean_readable, lemma_cooked_clean, events_wf, event_ok, name_ok, name_char, keys_ok, open_after, lemma_open_after_shift, lemma_open_after_append, bom};

verus! {

/// The placeholder guid used before the handshake assigns a session guid.
pub const PLACEHOLDER_GUID: &'static str = "##GUID";

/// The attributes of the `<in>` / `<out>` element.
pub open spec fn method_attrs(method: SdkMethod, result: Option<Seq<char>>) -> AttrsView {
    match result {
        Some(r) => seq![("method"@, method_name(method)), ("result"@, r)],
        None => seq![("method"@, method_name(method))],
    }
}

/// The events that open an envelope: `<sdk guid="…">` then `<tag method …>`.
pub open spec fn envelope_open(guid: Seq<char>, tag: Seq<char>, method: SdkMethod, result: Option<Seq<char>>) -> Seq<XmlEvent> {
    seq![XmlEvent::Start("sdk"@, seq![("guid"@, guid)]), XmlEvent::Start(tag, method_attrs(method, result))]
}

/// The events that close an envelope.
pub open spec fn envelope_close(tag: Seq<char>) -> Seq<XmlEvent> {
    seq![XmlEvent::End(tag), XmlEvent::End("sdk"@)]
}

/// The whole text of an envelope around `body`.
pub open spec fn envelope_text(guid: Seq<char>, tag: Seq<char>, method: SdkMethod, result: Option<Seq<char>>, body: Seq<char>) -> Seq<char> {
    decl_text() + render(envelope_open(guid, tag, method, result)) + body + render(envelope_close(tag))
}

/// An envelope around a body given as events, as one event sequence.
pub open spec fn envelope_events(guid: Seq<char>, tag: Seq<char>, method: SdkMethod, result: Option<Seq<char>>, body: Seq<XmlEvent>) -> Seq<XmlEvent> {
    envelope_open(guid, tag, method, result) + body + envelope_close(tag)
}

/// The bytes of a request document carrying `body`.
pub open spec fn request_bytes(guid: Seq<char>, method: SdkMethod, body: Seq<XmlEvent>) -> Seq<u8> {
    vstd::utf8::encode_utf8(decl_text() + render(envelope_events(guid, "in"@, method, None, body)))
}

/// The bytes of a reply document carrying `body`.
pub open spec fn reply_bytes(guid: Seq<char>, method: SdkMethod, result: Seq<char>, body: Seq<XmlEvent>) -> Seq<u8> {
    vstd::utf8::encode_utf8(decl_text() + render(envelope_events(guid, "out"@, method, Some(result), body)))
}

/// The envelope text around a rendered body is the rendering of the whole
/// event sequence.
pub proof fn lemma_envelope_render(guid: Seq<char>, tag: Seq<char>, method: SdkMethod, result: Option<Seq<char>>, body: Seq<XmlEvent>)
    ensures
        envelope_text(guid, tag, method, result, render(body)) == decl_text() + render(envelope_events(guid, tag, method, result, body)),
{
    let o = envelope_open(guid, tag, method, result);
    let c = envelope_close(tag);
    crate::sdk::xml::lemma_render_append(o, body);
    crate::sdk::xml::lemma_render_append(o + body, c);
    assert(decl_text() + render(o) + render(body) + render(c) =~= decl_text() + (render(o) + render(body) + render(c)));
}

fn wrap(guid: &str, tag: &str, method: SdkMethod, result: Option<&SdkResult>, body: &str) -> (b: Vec<u8>)
    ensures
        b@ == vstd::utf8::encode_utf8(envelope_text(guid@, tag@, method, match result {
            Some(r) => Some(r@),
            None => None,
        }, body@)),
{
    let ghost res = match result { Some(r) => Some(r@), None => None };
    let mname = method.as_str();
    let mut x = XmlWriter::new();
    x.decl();
    let guid_attr = [("guid", guid)];
    x.open("sdk", &guid_attr);
    proof {
        assert(crate::sdk::xml::attrs_view(guid_attr@) =~= seq![("guid"@, guid@)]);
    }
    match result {
        Some(r) => {
            let rs = r.as_str();
            let a = [("method", mname), ("result", rs)];
            x.open(tag, &a);
            proof {
                assert(crate::sdk::xml::attrs_view(a@) =~= method_attrs(method, res));
            }
        },
        None => {
            let a = [("method", mname)];
            x.open(tag, &a);
            proof {
                assert(crate::sdk::xml::attrs_view(a@) =~= method_attrs(method, res));
            }
        },
    }
    x.raw(body);
    x.close(tag);
    x.close("sdk");
    proof {
        let o = envelope_open(guid@, tag@, method, res);
        assert(o.drop_last() =~= seq![o[0]]);
        assert(seq![o[0]].drop_last() =~= Seq::<XmlEvent>::empty());
        assert(render(Seq::<XmlEvent>::empty()) =~= Seq::<char>::empty());
        assert(seq![o[0]].last() == o[0]);
        assert(render(seq![o[0]]) == render(Seq::<XmlEvent>::empty()) + crate::sdk::xml::event_text(o[0]));
        assert(render(seq![o[0]]) =~= crate::sdk::xml::event_text(o[0]));
        assert(render(o) == crate::sdk::xml::event_text(o[0]) + crate::sdk::xml::event_text(o[1]));
        let c = envelope_close(tag@);
        assert(c.drop_last() =~= seq![c[0]]);
        assert(seq![c[0]].drop_last() =~= Seq::<XmlEvent>::empty());
        assert(render(Seq::<XmlEvent>::empty()) =~= Seq::<char>::empty());
        assert(seq![c[0]].last() == c[0]);
        assert(render(seq![c[0]]) == render(Seq::<XmlEvent>::empty()) + crate::sdk::xml::event_text(c[0]));
        assert(render(seq![c[0]]) =~= crate::sdk::xml::event_text(c[0]));
        assert(render(c) == crate::sdk::xml::event_text(c[0]) + crate::sdk::xml::event_text(c[1]));
        assert(x@ =~= envelope_text(guid@, tag@, method, res, body@));
    }
    x.into_bytes()
}

/// Build a request document: `<sdk guid><in method>body</in></sdk>`, where
/// `body` is already-written XML. Writing cannot fail.
pub fn encode_request(guid: &str, method: SdkMethod, body: &str) -> (res: Result<Vec<u8>, ProtoError>)
    ensures
        res matches Ok(b) && b@ == vstd::utf8::encode_utf8(envelope_text(guid@, "in"@, method, None, body@)),
{
    Ok(wrap(guid, "in", method, None, body))
}

/// Build a reply document: `<sdk guid><out method result>body</out></sdk>`.
/// Writing cannot fail.
pub fn encode_reply(guid: &str, method: SdkMethod, result: &SdkResult, body: &str) -> (res: Result<Vec<u8>, ProtoError>)
    ensures
        res matches Ok(b) && b@ == vstd::utf8::encode_utf8(envelope_text(guid@, "out"@, method, Some(result@), body@)),
{
    Ok(wrap(guid, "out", method, Some(result), body))
}

/// A decoded envelope: the header fields plus the document for body parsing.
#[derive(Debug, Clone)]
pub struct SdkReply {
    /// Session guid from the `<sdk>` element, if present.
    pub guid: Option<String>,
    /// The method named on the `<in>` / `<out>` element.
    pub method: SdkMethod,
    /// The result code, present on `<out>` replies and absent on `<in>` requests.
    pub result: Option<SdkResult>,
    /// The entire document text.
    pub raw: String,
    /// The document's start and empty elements, in order.
    pub elements: Vec<XmlElement>,
}

/// The envelope header as plain values: guid, method, result.
pub type ReplyHead = (Option<Seq<char>>, Option<SdkMethod>, Option<Seq<char>>);

/// The method a name denotes, if any.
pub open spec fn method_named(s: Seq<char>) -> Option<SdkMethod> {
    if exists|m: SdkMethod| method_name(m) == s {
        Some(choose|m: SdkMethod| method_name(m) == s)
    } else {
        None
    }
}

/// One element's effect on the header scan: `<sdk>` sets the guid, `<in>` or
/// `<out>` the method and result; an unknown method name stops the scan.
pub open spec fn head_step(st: Result<ReplyHead, Seq<char>>, e: ElementView) -> Result<ReplyHead, Seq<char>> {
    match st {
        Err(m) => Err(m),
        Ok(h) => if e.0 == "sdk"@ {
            Ok((attr_value(e.1, "guid"@), h.1, h.2))
        } else if e.0 == "in"@ || e.0 == "out"@ {
            match attr_value(e.1, "method"@) {
                Some(name) => match method_named(name) {
                    Some(m) => Ok((h.0, Some(m), attr_value(e.1, "result"@))),
                    None => Err(name),
                },
                None => Ok((h.0, h.1, attr_value(e.1, "result"@))),
            }
        } else {
            Ok(h)
        },
    }
}

/// The header found by scanning a document's elements, or the unknown method name.
pub open spec fn head_scan(es: Seq<ElementView>) -> Result<ReplyHead, Seq<char>> {
    scan(Ok((None, None, None)), es, |st: Result<ReplyHead, Seq<char>>, e: ElementView| head_step(st, e))
}

/// Why the header scan stopped.
pub enum HeadErr {
    /// A method name this crate does not model.
    Unknown(Seq<char>),
    /// An attribute the header needs could not be read.
    Unreadable,
}

/// A header scan over cooked elements, with its unknown method as a stop.
pub open spec fn lift(r: Result<ReplyHead, Seq<char>>) -> Result<ReplyHead, HeadErr> {
    match r {
        Ok(h) => Ok(h),
        Err(n) => Err(HeadErr::Unknown(n)),
    }
}

/// One element's effect on the header scan as the attributes are read: an
/// `<sdk>` reads `guid`; an `<in>` or `<out>` reads `method`, stops at an
/// unknown one, then reads `result`; a lookup that fails stops the scan.
pub open spec fn head_step_full(st: Result<ReplyHead, HeadErr>, f: ElementFull) -> Result<ReplyHead, HeadErr> {
    match st {
        Err(x) => Err(x),
        Ok(h) => {
            let e = cooked(f);
            if e.0 == "sdk"@ {
                if readable(f, "guid"@) {
                    Ok((attr_value(e.1, "guid"@), h.1, h.2))
                } else {
                    Err(HeadErr::Unreadable)
                }
            } else if e.0 == "in"@ || e.0 == "out"@ {
                if !readable(f, "method"@) {
                    Err(HeadErr::Unreadable)
                } else {
                    match attr_value(e.1, "method"@) {
                        Some(name) => match method_named(name) {
                            Some(m) => if readable(f, "result"@) {
                                Ok((h.0, Some(m), attr_value(e.1, "result"@)))
                            } else {
                                Err(HeadErr::Unreadable)
                            },
                            None => Err(HeadErr::Unknown(name)),
                        },
                        None => if readable(f, "result"@) {
                            Ok((h.0, h.1, attr_value(e.1, "result"@)))
                        } else {
                            Err(HeadErr::Unreadable)
                        },
                    }
                }
            } else {
                Ok(h)
            }
        },
    }
}

/// The header a document's elements give as they are read.
pub open spec fn head_scan_full(fs: Seq<ElementFull>) -> Result<ReplyHead, HeadErr> {
    scan(Ok((None, None, None)), fs, |st: Result<ReplyHead, HeadErr>, f: ElementFull| head_step_full(st, f))
}

/// Over elements that read cleanly, the header scan is that of the cooked
/// elements.
pub proof fn lemma_head_clean(ev: Seq<ElementView>)
    ensures
        head_scan_full(clean_all(ev)) == lift(head_scan(ev)),
    decreases ev.len(),
{
    if ev.len() > 0 {
        let init = ev.drop_last();
        lemma_head_clean(init);
        assert(clean_all(ev).drop_last() =~= clean_all(init));
        assert(clean_all(ev).last() == clean_full(ev.last()));
        lemma_clean_readable(ev.last());
    }
}

/// The message for an envelope that names no method.
pub open spec fn no_method_msg() -> Seq<char> {
    "envelope has no <in>/<out> method"@
}

/// The plain-value form of an optional string.
pub open spec fn opt_view(o: Option<String>) -> Option<Seq<char>> {
    match o {
        Some(s) => Some(s@),
        None => None,
    }
}

/// The plain-value form of an optional result code.
pub open spec fn result_view(o: Option<SdkResult>) -> Option<Seq<char>> {
    match o {
        Some(r) => Some(r@),
        None => None,
    }
}

/// What decoding a document whose text is `raw` and whose elements read as
/// `fs` gives: the envelope header they carry, with the document's text and
/// elements kept; the error for a method that is missing or not modelled;
/// or an XML error when an attribute the header needs cannot be read.
pub open spec fn reply_for(res: Result<SdkReply, ProtoError>, raw: Seq<char>, fs: Seq<ElementFull>) -> bool {
    match head_scan_full(fs) {
        Err(HeadErr::Unknown(name)) => res matches Err(ProtoError::Xml(m)) && m@ == unknown_method_msg(name),
        Err(HeadErr::Unreadable) => res matches Err(ProtoError::Xml(_)),
        Ok((g, None, r)) => res matches Err(ProtoError::Xml(m)) && m@ == no_method_msg(),
        Ok((g, Some(m), r)) => res matches Ok(rep) && opt_view(rep.guid) == g && rep.method == m
            && result_view(rep.result) == r && rep.raw@ == raw && elements_full(rep.elements@) == fs,
    }
}

/// What the header scan of elements `fs` gives as a result: the guid,
/// method and result it found, or the error it stopped at.
pub open spec fn head_result(res: Result<(Option<String>, Option<SdkMethod>, Option<SdkResult>), ProtoError>, fs: Seq<ElementFull>) -> bool {
    match head_scan_full(fs) {
        Err(HeadErr::Unknown(name)) => res matches Err(ProtoError::Xml(m)) && m@ == unknown_method_msg(name),
        Err(HeadErr::Unreadable) => res matches Err(ProtoError::Xml(_)),
        Ok(h) => res matches Ok(t) && (opt_view(t.0), t.1, result_view(t.2)) == h,
    }
}

/// Read the envelope header off a document's elements in order: the
/// `<sdk>` guid, then the `<in>`/`<out>` method and result, stopping at the
/// first unknown method or unreadable attribute.
fn read_head(es: &Vec<XmlElement>) -> (res: Result<(Option<String>, Option<SdkMethod>, Option<SdkResult>), ProtoError>)
    ensures
        head_result(res, elements_full(es@)),
{
    let ghost fv = elements_full(es@);
    let ghost step = |st: Result<ReplyHead, HeadErr>, f: ElementFull| head_step_full(st, f);
    let mut guid: Option<String> = None;
    let mut method: Option<SdkMethod> = None;
    let mut result: Option<SdkResult> = None;
    let n = es.len();
    let mut i: usize = 0;
    proof {
        assert(fv.take(0) =~= Seq::<ElementFull>::empty());
        assert(fv.skip(0) =~= fv);
    }
    while i < n
        invariant
            n == es@.len(),
            i <= n,
            fv == elements_full(es@),
            step == (|st: Result<ReplyHead, HeadErr>, f: ElementFull| head_step_full(st, f)),
            scan(Ok((None, None, None)), fv.take(i as int), step) == Ok::<ReplyHead, HeadErr>(
                (opt_view(guid), method, result_view(result)),
            ),
        decreases n - i,
    {
        let e = &es[i];
        proof {
            lemma_scan_take(Ok((None, None, None)), fv, i as int, step);
            assert(fv[i as int] == e.full());
            assert(e@ == cooked(e.full()));
        }
        if is_named(e, "sdk") {
            match attr(e, "guid") {
                Ok(g) => {
                    guid = g;
                },
                Err(err) => {
                    proof {
                        lemma_err_absorbs(fv, i + 1, step, HeadErr::Unreadable);
                    }
                    return Err(err);
                },
            }
        } else if is_named(e, "in") || is_named(e, "out") {
            match attr(e, "method") {
                Err(err) => {
                    proof {
                        lemma_err_absorbs(fv, i + 1, step, HeadErr::Unreadable);
                    }
                    return Err(err);
                },
                Ok(Some(name)) => {
                    match SdkMethod::from_str(name.as_str()) {
                        Ok(m) => {
                            proof {
                                crate::sdk::method::lemma_method_roundtrip(m);
                            }
                            method = Some(m);
                        },
                        Err(err) => {
                            proof {
                                assert(method_named(name@) is None);
                                lemma_err_absorbs(fv, i + 1, step, HeadErr::Unknown(name@));
                            }
                            return Err(err);
                        },
                    }
                },
                Ok(None) => {},
            }
            match attr(e, "result") {
                Err(err) => {
                    proof {
                        lemma_err_absorbs(fv, i + 1, step, HeadErr::Unreadable);
                    }
                    return Err(err);
                },
                Ok(r) => {
                    result = match r {
                        Some(r) => Some(SdkResult::new(r)),
                        None => None,
                    };
                },
            }
        }
        i = i + 1;
    }
    assert(fv.take(n as int) =~= fv);
    Ok((guid, method, result))
}

/// Build the envelope header from a document's scanned elements.
pub fn decode_reply_elements(raw: String, es: Vec<XmlElement>) -> (res: Result<SdkReply, ProtoError>)
    ensures
        reply_for(res, raw@, elements_full(es@)),
{
    let (guid, method, result) = match read_head(&es) {
        Ok(h) => h,
        Err(e) => return Err(e),
    };
    match method {
        Some(m) => Ok(SdkReply { guid, method: m, result, raw, elements: es }),
        None => {
            proof { reveal_strlit("envelope has no <in>/<out> method"); }
            Err(ProtoError::Xml(String::from_str("envelope has no <in>/<out> method")))
        },
    }
}

/// Once the header scan stops, it stays stopped.
proof fn lemma_err_absorbs(
    fv: Seq<ElementFull>,
    from: int,
    step: spec_fn(Result<ReplyHead, HeadErr>, ElementFull) -> Result<ReplyHead, HeadErr>,
    x: HeadErr,
)
    requires
        0 < from <= fv.len(),
        step == (|st: Result<ReplyHead, HeadErr>, f: ElementFull| head_step_full(st, f)),
        scan(Ok((None, None, None)), fv.take(from), step) == Err::<ReplyHead, HeadErr>(x),
    ensures
        head_scan_full(fv) == Err::<ReplyHead, HeadErr>(x),
{
    assert forall|k: int| from <= k <= fv.len() implies #[trigger] scan(Ok((None, None, None)), fv.take(k), step)
        == Err::<ReplyHead, HeadErr>(x) by {
        lemma_err_absorbs_to(fv, from, k, step, x);
    }
    assert(fv.take(fv.len() as int) =~= fv);
}

proof fn lemma_err_absorbs_to(
    fv: Seq<ElementFull>,
    from: int,
    k: int,
    step: spec_fn(Result<ReplyHead, HeadErr>, ElementFull) -> Result<ReplyHead, HeadErr>,
    x: HeadErr,
)
    requires
        0 < from <= k <= fv.len(),
        step == (|st: Result<ReplyHead, HeadErr>, f: ElementFull| head_step_full(st, f)),
        scan(Ok((None, None, None)), fv.take(from), step) == Err::<ReplyHead, HeadErr>(x),
    ensures
        scan(Ok((None, None, None)), fv.take(k), step) == Err::<ReplyHead, HeadErr>(x),
    decreases k - from,
{
    if k > from {
        lemma_err_absorbs_to(fv, from, k - 1, step, x);
        lemma_scan_take(Ok((None, None, None)), fv, k - 1, step);
    }
}

/// The text of a reply document: its bytes, less any byte-order mark, as
/// UTF-8.
pub open spec fn doc_text(bytes: Seq<u8>) -> Seq<char> {
    vstd::utf8::decode_utf8(without_bom(bytes))
}

/// The elements of a reply document as `quick_xml` reads them, or `None`
/// when its bytes are not UTF-8 text or the reader rejects it.
pub open spec fn doc_elements(bytes: Seq<u8>) -> Option<Seq<ElementFull>> {
    if vstd::utf8::valid_utf8(without_bom(bytes)) {
        xml_elements(doc_text(bytes))
    } else {
        None
    }
}

/// How far reading a reply document gets. The header is read off each
/// element as the reader reaches it, so a header that stops at an element
/// wins over a reader error further on.
pub enum ReplyOutcome {
    /// The bytes are not UTF-8 text, or the reader stops at an error before
    /// the header does.
    Unread,
    /// The header scan stops at an element the reader reached.
    Stopped(HeadErr),
    /// The whole document reads: the header it carries, and its elements.
    Head(ReplyHead, Seq<ElementFull>),
}

/// How far reading the reply document `bytes` gets.
pub open spec fn reply_outcome(bytes: Seq<u8>) -> ReplyOutcome {
    if !vstd::utf8::valid_utf8(without_bom(bytes)) {
        ReplyOutcome::Unread
    } else {
        let items = xml_scan(doc_text(bytes));
        match head_scan_full(scan_prefix(items)) {
            Err(x) => ReplyOutcome::Stopped(x),
            Ok(h) => if scan_failed(items) {
                ReplyOutcome::Unread
            } else {
                ReplyOutcome::Head(h, scan_prefix(items))
            },
        }
    }
}

/// `rep` is what decoding `bytes` gives: its text is the document's text,
/// its elements the document's elements, and its header the one they carry.
pub open spec fn decoded_reply(bytes: Seq<u8>, rep: SdkReply) -> bool {
    &&& doc_elements(bytes) == Some(elements_full(rep.elements@))
    &&& rep.raw@ == doc_text(bytes)
    &&& head_scan_full(elements_full(rep.elements@)) == Ok::<ReplyHead, HeadErr>(
        (opt_view(rep.guid), Some(rep.method), result_view(rep.result)),
    )
    &&& reply_outcome(bytes) == ReplyOutcome::Head(
        (opt_view(rep.guid), Some(rep.method), result_view(rep.result)),
        elements_full(rep.elements@),
    )
}

/// Parse an envelope document, extracting guid, method, and result. The
/// method element (`in` or `out`) must be present and name a method this
/// crate models. The header is read as the reader reaches each element, so
/// an unknown method or unreadable header attribute is reported even when
/// the document breaks further on.
pub fn decode_reply(bytes: &[u8]) -> (res: Result<SdkReply, ProtoError>)
    ensures
        match reply_outcome(bytes@) {
            ReplyOutcome::Unread => res matches Err(ProtoError::Xml(_)),
            ReplyOutcome::Stopped(HeadErr::Unknown(name)) => res matches Err(ProtoError::Xml(m)) && m@
                == unknown_method_msg(name),
            ReplyOutcome::Stopped(HeadErr::Unreadable) => res matches Err(ProtoError::Xml(_)),
            ReplyOutcome::Head(h, fs) => reply_for(res, doc_text(bytes@), fs),
        },
        res matches Ok(rep) ==> decoded_reply(bytes@, rep),
        forall|es: Seq<XmlEvent>| #[trigger] doc_of(doc_text(bytes@), es) && vstd::utf8::valid_utf8(without_bom(bytes@))
            ==> doc_elements(bytes@) == Some(clean_all(elements_of(es))),
{
    let raw = match as_str(bytes) {
        Ok(s) => s,
        Err(e) => return Err(e),
    };
    let (es, failed) = read_elements(raw.as_str());
    proof {
        lemma_scan_prefix(xml_scan(raw@));
    }
    match failed {
        None => decode_reply_elements(raw, es),
        Some(e) => match read_head(&es) {
            Err(h) => Err(h),
            Ok(_) => Err(e),
        },
    }
}

/// A document that starts with `<` has no byte-order mark.
proof fn lemma_no_bom(text: Seq<char>)
    requires
        text.len() > 0,
        text[0] == '<',
    ensures
        without_bom(vstd::utf8::encode_utf8(text)) == vstd::utf8::encode_utf8(text),
{
    let b = vstd::utf8::encode_utf8(text);
    let lt: u32 = '<' as u32;
    assert(lt == 0x3C);
    assert((lt & 0x7F) as u8 == 0x3Cu8) by (bit_vector)
        requires lt == 0x3C;
    assert(vstd::utf8::encode_scalar(lt) == seq![0x3Cu8]);
    assert(b == vstd::utf8::encode_scalar(text[0] as u32) + vstd::utf8::encode_utf8(text.drop_first()));
    assert(b[0] == 0x3Cu8);
    if b.len() >= 3 {
        assert(b.subrange(0, 3)[0] == b[0]);
        assert(bom()[0] == 0xEFu8);
    }
}

/// An envelope around well-formed body events is well formed.
pub proof fn lemma_envelope_wf(guid: Seq<char>, tag: Seq<char>, method: SdkMethod, result: Option<Seq<char>>, body: Seq<XmlEvent>)
    requires
        tag == "in"@ || tag == "out"@,
        events_wf(body),
    ensures
        events_wf(envelope_events(guid, tag, method, result, body)),
{
    reveal_strlit("sdk");
    reveal_strlit("in");
    reveal_strlit("out");
    reveal_strlit("guid");
    reveal_strlit("method");
    reveal_strlit("result");
    let o = envelope_open(guid, tag, method, result);
    let c = envelope_close(tag);
    let e: Seq<Seq<char>> = Seq::empty();
    let st = seq!["sdk"@, tag];
    assert(name_ok("sdk"@)) by {
        assert(name_char('s') && name_char('d') && name_char('k'));
    }
    assert(name_ok(tag)) by {
        assert(name_char('i') && name_char('n') && name_char('o') && name_char('u') && name_char('t'));
    }
    assert(name_ok("guid"@)) by {
        assert(name_char('g') && name_char('u') && name_char('i') && name_char('d'));
    }
    assert(name_ok("method"@)) by {
        assert(name_char('m') && name_char('e') && name_char('t') && name_char('h') && name_char('o') && name_char('d'));
    }
    assert(name_ok("result"@)) by {
        assert(name_char('r') && name_char('e') && name_char('s') && name_char('u') && name_char('l') && name_char('t'));
    }
    assert("method"@ != "result"@) by {
        assert("method"@[0] != "result"@[0]);
    }
    assert(keys_ok(seq![("guid"@, guid)]));
    assert(keys_ok(method_attrs(method, result)));
    assert(o.drop_last() =~= seq![o[0]]);
    assert(seq![o[0]].drop_last() =~= Seq::<XmlEvent>::empty());
    assert(open_after(Some(e), o) == Some(st)) by {
        assert(e.push("sdk"@) =~= seq!["sdk"@]);
        assert(seq!["sdk"@].push(tag) =~= st);
        assert(open_after(Some(e), Seq::<XmlEvent>::empty()) == Some(e));
        assert(seq![o[0]].last() == o[0]);
        assert(open_after(Some(e), seq![o[0]]) == Some(seq!["sdk"@]));
        assert(o.last() == o[1]);
    }
    lemma_open_after_shift(st, e, body);
    assert(st + e =~= st);
    assert(st + Seq::<Seq<char>>::empty() =~= st);
    lemma_open_after_append(Some(e), o, body);
    lemma_open_after_append(Some(e), o + body, c);
    assert(c.drop_last() =~= seq![c[0]]);
    assert(seq![c[0]].drop_last() =~= Seq::<XmlEvent>::empty());
    assert(open_after(Some(st), c) == Some(e)) by {
        assert(st.drop_last() =~= seq!["sdk"@]);
        assert(seq!["sdk"@].drop_last() =~= e);
        assert(open_after(Some(st), Seq::<XmlEvent>::empty()) == Some(st));
        assert(seq![c[0]].last() == c[0]);
        assert(st.last() == tag);
        assert(open_after(Some(st), seq![c[0]]) == Some(seq!["sdk"@]));
        assert(c.last() == c[1]);
        assert(seq!["sdk"@].last() == "sdk"@);
    }
    let all = envelope_events(guid, tag, method, result, body);
    assert(all == o + body + c);
    assert forall|k: int| 0 <= k < all.len() implies event_ok(#[trigger] all[k]) by {
        if k < 2 {
            assert(all[k] == o[k]);
        } else if k < 2 + body.len() {
            assert(all[k] == body[k - 2]);
        } else {
            assert(all[k] == c[k - 2 - body.len()]);
        }
    }
}

/// A reply written around well-formed body events whose elements are not
/// named like the envelope's reads back as those events' elements, with the
/// guid, method and result it was written with.
pub proof fn lemma_envelope_reads_back(
    bytes: Seq<u8>,
    guid: Seq<char>,
    tag: Seq<char>,
    method: SdkMethod,
    result: Option<Seq<char>>,
    body: Seq<XmlEvent>,
)
    requires
        tag == "in"@ || tag == "out"@,
        events_wf(body),
        forall|k: int| 0 <= k < elements_of(body).len() ==> !envelope_name(#[trigger] elements_of(body)[k].0),
        bytes == vstd::utf8::encode_utf8(decl_text() + render(envelope_events(guid, tag, method, result, body))),
        forall|es: Seq<XmlEvent>| #[trigger] doc_of(doc_text(bytes), es) && vstd::utf8::valid_utf8(without_bom(bytes))
            ==> doc_elements(bytes) == Some(clean_all(elements_of(es))),
    ensures
        doc_elements(bytes) == Some(clean_all(elements_of(envelope_events(guid, tag, method, result, body)))),
        doc_text(bytes) == decl_text() + render(envelope_events(guid, tag, method, result, body)),
        reply_outcome(bytes) == ReplyOutcome::Head(
            (Some(guid), Some(method), result),
            clean_all(elements_of(envelope_events(guid, tag, method, result, body))),
        ),
        head_scan_full(clean_all(elements_of(envelope_events(guid, tag, method, result, body)))) == Ok::<
            ReplyHead,
            HeadErr,
        >((Some(guid), Some(method), result)),
        cooked_all(clean_all(elements_of(envelope_events(guid, tag, method, result, body)))) == elements_of(
            envelope_events(guid, tag, method, result, body),
        ),
        forall|n: Seq<char>, k: int| 0 <= k < elements_of(envelope_events(guid, tag, method, result, body)).len()
            ==> #[trigger] readable(clean_all(elements_of(envelope_events(guid, tag, method, result, body)))[k], n),
{
    let es = envelope_events(guid, tag, method, result, body);
    let text = decl_text() + render(es);
    reveal_strlit("<?xml version=\"1.0\" encoding=\"utf-8\"?>");
    assert(text[0] == '<');
    lemma_no_bom(text);
    vstd::utf8::encode_utf8_valid_utf8(text);
    vstd::utf8::encode_utf8_decode_utf8(text);
    lemma_envelope_wf(guid, tag, method, result, body);
    assert(doc_of(doc_text(bytes), es));
    lemma_envelope_head(guid, tag, method, result, body);
    lemma_head_clean(elements_of(es));
    lemma_cooked_clean(elements_of(es));
    lemma_scan_prefix(xml_scan(doc_text(bytes)));
    assert forall|n: Seq<char>, k: int| 0 <= k < elements_of(es).len() implies #[trigger] readable(
        clean_all(elements_of(es))[k],
        n,
    ) by {
        lemma_clean_readable(elements_of(es)[k]);
    }
}

/// The element names the envelope itself uses.
pub open spec fn envelope_name(n: Seq<char>) -> bool {
    n == "sdk"@ || n == "in"@ || n == "out"@
}

/// The elements of a written envelope: `<sdk>`, then `<in>` or `<out>`, then
/// those of the body.
pub proof fn lemma_envelope_elements(guid: Seq<char>, tag: Seq<char>, method: SdkMethod, result: Option<Seq<char>>, body: Seq<XmlEvent>)
    ensures
        elements_of(envelope_events(guid, tag, method, result, body)) == seq![
            ("sdk"@, seq![("guid"@, guid)]),
            (tag, method_attrs(method, result)),
        ] + elements_of(body),
{
    let o = envelope_open(guid, tag, method, result);
    let c = envelope_close(tag);
    lemma_elements_append(o, body);
    lemma_elements_append(o + body, c);
    assert(o.drop_last() =~= seq![o[0]]);
    assert(seq![o[0]].drop_last() =~= Seq::<XmlEvent>::empty());
    assert(seq![o[0]].last() == o[0]);
    assert(elements_of(Seq::<XmlEvent>::empty()) =~= Seq::<ElementView>::empty());
    assert(elements_of(seq![o[0]]) =~= seq![("sdk"@, seq![("guid"@, guid)])]);
    assert(elements_of(o) =~= seq![("sdk"@, seq![("guid"@, guid)]), (tag, method_attrs(method, result))]);
    assert(c.drop_last() =~= seq![c[0]]);
    assert(seq![c[0]].drop_last() =~= Seq::<XmlEvent>::empty());
    assert(seq![c[0]].last() == c[0]);
    assert(elements_of(seq![c[0]]) =~= Seq::<ElementView>::empty());
    assert(elements_of(c) =~= Seq::<ElementView>::empty());
    assert(elements_of(o + body) + elements_of(c) =~= elements_of(o + body));
}

proof fn lemma_head_skips_body(h: ReplyHead, es: Seq<ElementView>)
    requires
        forall|k: int| 0 <= k < es.len() ==> !envelope_name(#[trigger] es[k].0),
    ensures
        scan(Ok(h), es, |st: Result<ReplyHead, Seq<char>>, e: ElementView| head_step(st, e)) == Ok::<ReplyHead, Seq<char>>(h),
    decreases es.len(),
{
    if es.len() > 0 {
        assert forall|k: int| 0 <= k < es.drop_last().len() implies !envelope_name(#[trigger] es.drop_last()[k].0) by {
            assert(es.drop_last()[k] == es[k]);
        }
        lemma_head_skips_body(h, es.drop_last());
        assert(!envelope_name(es[es.len() - 1].0));
    }
}

/// Reading back the elements of a written envelope recovers its guid, its
/// method and its result, whatever body it carries, as long as no body
/// element is itself named `sdk`, `in` or `out`.
pub proof fn lemma_envelope_head(guid: Seq<char>, tag: Seq<char>, method: SdkMethod, result: Option<Seq<char>>, body: Seq<XmlEvent>)
    requires
        tag == "in"@ || tag == "out"@,
        forall|k: int| 0 <= k < elements_of(body).len() ==> !envelope_name(#[trigger] elements_of(body)[k].0),
    ensures
        head_scan(elements_of(envelope_events(guid, tag, method, result, body))) == Ok::<ReplyHead, Seq<char>>(
            (Some(guid), Some(method), result),
        ),
{
    reveal_strlit("sdk");
    reveal_strlit("in");
    reveal_strlit("out");
    reveal_strlit("guid");
    reveal_strlit("method");
    reveal_strlit("result");
    let step = |st: Result<ReplyHead, Seq<char>>, e: ElementView| head_step(st, e);
    let e0: ElementView = ("sdk"@, seq![("guid"@, guid)]);
    let e1: ElementView = (tag, method_attrs(method, result));
    let init: Result<ReplyHead, Seq<char>> = Ok((None, None, None));
    lemma_envelope_elements(guid, tag, method, result, body);
    lemma_scan_append(init, seq![e0, e1], elements_of(body), step);
    assert(seq![e0, e1].drop_last() =~= seq![e0]);
    assert(seq![e0].drop_last() =~= Seq::<ElementView>::empty());
    assert(crate::sdk::xml::plain("guid"@));
    assert(crate::sdk::xml::plain("method"@));
    assert(crate::sdk::xml::plain("result"@));
    assert("method"@[0] != "result"@[0]);
    assert("out"@[0] != "sdk"@[0]);
    assert("in"@ != "sdk"@);
    crate::sdk::xml::lemma_attr_lookup(e0.1, 0);
    let h0: ReplyHead = (Some(guid), None, None);
    assert(scan(init, Seq::<ElementView>::empty(), step) == init);
    assert(seq![e0].last() == e0);
    assert(head_step(init, e0) == Ok::<ReplyHead, Seq<char>>(h0));
    assert(scan(init, seq![e0], step) == Ok::<ReplyHead, Seq<char>>(h0));
    crate::sdk::xml::lemma_attr_lookup(e1.1, 0);
    crate::sdk::method::lemma_method_roundtrip(method);
    assert(method_named(method_name(method)) == Some(method));
    match result {
        Some(r) => {
            crate::sdk::xml::lemma_attr_lookup(e1.1, 1);
        },
        None => {
            crate::sdk::xml::lemma_attr_absent(e1.1, "result"@);
        },
    }
    assert(seq![e0, e1].last() == e1);
    assert(scan(init, seq![e0, e1], step) == head_step(Ok(h0), e1));
    assert(attr_value(e1.1, "method"@) == Some(method_name(method)));
    assert(attr_value(e1.1, "result"@) == result);
    assert(scan(init, seq![e0, e1], step) == Ok::<ReplyHead, Seq<char>>((Some(guid), Some(method), result)));
    lemma_head_skips_body((Some(guid), Some(method), result), elements_of(body));
}

impl SdkReply {
    /// `Ok` if the device reported success (or sent no result at all, as a
    /// request echo does); otherwise a `ProtoError::SdkError`.
    pub fn check(&self) -> (res: Result<(), ProtoError>)
        ensures
            match self.result {
                Some(r) if r@ != success_code() => res matches Err(ProtoError::SdkError { method, result })
                    && method@ == method_name(self.method) && result@ == r@,
                _ => res is Ok,
            },
    {
        match &self.result {
            Some(r) => {
                if !r.is_success() {
                    return Err(ProtoError::SdkError {
                        method: String::from_str(self.method.as_str()),
                        result: SdkResult::from(r.as_str()),
                    });
                }
                Ok(())
            },
            None => Ok(()),
        }
    }
}

} // verus!
