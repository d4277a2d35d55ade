//! `GetBootLogo` / `SetBootLogoName` / `ClearBootLogo`: the splash image.

use vstd::prelude::*;
use crate::sdk::xml::{cooked, elements_full, lemma_elements_view_full, lemma_reads_all_fails, readable, reads_all, ElementFull};
use crate::sdk::envelope::{envelope_name, lemma_envelope_reads_back};
use crate::sdk::xml::{events_wf, event_ok, keys_ok, lemma_open_after_flat, name_ok};
use crate::error::ProtoError;
use crate::fmt::{bool_str, bool_text, parse_bool};
use crate::sdk::envelope::{encode_reply, encode_request, envelope_events, lemma_envelope_elements,
    lemma_envelope_render, reply_bytes, request_bytes, SdkReply};
use crate::sdk::messages::{bool_or, decode_checked, decodes_to, or_keep};
use crate::sdk::method::SdkMethod;
use crate::sdk::result::{success_code, SdkResult};
use crate::sdk::xml::{attr, attr_value, attrs_view, elements_of, elements_view, is_named,
    lemma_attr_lookup, lemma_elements_push, lemma_render_take, lemma_scan_append, lemma_scan_push,
    lemma_scan_take, render, scan, ElementView, XmlEvent, XmlWriter};

verus! {

/// Body-less `GetBootLogo` request.
#[derive(Debug, Clone, Copy, PartialEq, Eq, Default)]
pub struct GetBootLogo;

impl GetBootLogo {
    /// Encode as a request document.
    pub fn encode_request(&self, guid: &str) -> (res: Result<Vec<u8>, ProtoError>)
        ensures
            res matches Ok(b) && b@ == request_bytes(guid@, SdkMethod::GetBootLogo, Seq::empty()),
    {
        proof {
            reveal_strlit("");
            lemma_envelope_render(guid@, "in"@, SdkMethod::GetBootLogo, None, Seq::empty());
        }
        encode_request(guid, SdkMethod::GetBootLogo, "")
    }

    /// Decode a document, surfacing any device error.
    pub fn decode(bytes: &[u8]) -> (res: Result<GetBootLogo, ProtoError>)
        ensures
            decodes_to(bytes@, res, |f: ElementFull| true, |v: GetBootLogo, es: Seq<ElementView>| true),
    {
        match decode_checked(bytes) {
            Ok(_) => Ok(GetBootLogo),
            Err(e) => Err(e),
        }
    }
}

/// Body-less `ClearBootLogo` request.
#[derive(Debug, Clone, Copy, PartialEq, Eq, Default)]
pub struct ClearBootLogo;

impl ClearBootLogo {
    /// Encode as a request document.
    pub fn encode_request(&self, guid: &str) -> (res: Result<Vec<u8>, ProtoError>)
        ensures
            res matches Ok(b) && b@ == request_bytes(guid@, SdkMethod::ClearBootLogo, Seq::empty()),
    {
        proof {
            reveal_strlit("");
            lemma_envelope_render(guid@, "in"@, SdkMethod::ClearBootLogo, None, Seq::empty());
        }
        encode_request(guid, SdkMethod::ClearBootLogo, "")
    }

    /// Decode a document, surfacing any device error.
    pub fn decode(bytes: &[u8]) -> (res: Result<ClearBootLogo, ProtoError>)
        ensures
            decodes_to(bytes@, res, |f: ElementFull| true, |v: ClearBootLogo, es: Seq<ElementView>| true),
    {
        match decode_checked(bytes) {
            Ok(_) => Ok(ClearBootLogo),
            Err(e) => Err(e),
        }
    }
}

/// The `<logo>` body: the `SetBootLogoName` request and the `GetBootLogo`
/// reply share it. Upload the image first, then name it here.
#[derive(Debug, Clone, Default, PartialEq, Eq)]
pub struct BootLogoInfo {
    pub exists: bool,
    pub name: String,
    pub md5: String,
}

/// A [`BootLogoInfo`] as plain values.
pub struct BootLogoInfoView {
    pub exists: bool,
    pub name: Seq<char>,
    pub md5: Seq<char>,
}

impl View for BootLogoInfo {
    type V = BootLogoInfoView;

    open spec fn view(&self) -> BootLogoInfoView {
        BootLogoInfoView {
            exists: self.exists,
            name: self.name@,
            md5: self.md5@,
        }
    }
}

/// The body's elements, one `<logo exist name md5/>`.
pub open spec fn boot_logo_events(d: BootLogoInfoView) -> Seq<XmlEvent> {
    seq![
        XmlEvent::Empty("logo"@, seq![("exist"@, bool_text(d.exists)), ("name"@, d.name), ("md5"@, d.md5)]),
    ]
}

/// A body with no logo, which parsing starts from.
pub open spec fn boot_logo_default() -> BootLogoInfoView {
    BootLogoInfoView {
        exists: false,
        name: Seq::empty(),
        md5: Seq::empty(),
    }
}

/// What one element contributes: `<logo>` sets the attributes it carries; any other element
/// changes nothing.
pub open spec fn boot_logo_step(d: BootLogoInfoView, e: ElementView) -> BootLogoInfoView {
    if e.0 == "logo"@ {
        BootLogoInfoView {
            exists: bool_or(d.exists, attr_value(e.1, "exist"@)),
            name: or_keep(d.name, attr_value(e.1, "name"@)),
            md5: or_keep(d.md5, attr_value(e.1, "md5"@)),
        }
    } else {
        d
    }
}

/// The body read from a document's elements.
pub open spec fn boot_logo_scan(es: Seq<ElementView>) -> BootLogoInfoView {
    scan(boot_logo_default(), es, |d: BootLogoInfoView, e: ElementView| boot_logo_step(d, e))
}

impl BootLogoInfo {
    /// Write the body's elements.
    pub fn write_body(&self, x: &mut XmlWriter) -> (res: Result<(), ProtoError>)
        ensures
            res is Ok,
            final(x)@ == old(x)@ + render(boot_logo_events(self@)),
    {
        let ghost start = x@;
        let ghost evs = boot_logo_events(self@);
        assert(evs.take(0) =~= Seq::<XmlEvent>::empty());
        let a0 = [("exist", bool_str(self.exists)), ("name", self.name.as_str()), ("md5", self.md5.as_str())];
        x.empty("logo", &a0);
        proof {
            assert(attrs_view(a0@) =~= evs[0]->Empty_1);
            lemma_render_take(evs, 0);
            assert(x@ =~= start + render(evs.take(1)));
        }
        assert(evs.take(1) =~= evs);
        Ok(())
    }

    /// Read the body back out of a decoded envelope by scanning its elements.
    pub fn parse_body(reply: &SdkReply) -> (res: Result<BootLogoInfo, ProtoError>)
        ensures
            res is Ok <==> reads_all(elements_full(reply.elements@), |f: ElementFull| boot_logo_reads(f)),
            res matches Ok(v) ==> v@ == boot_logo_scan(elements_view(reply.elements@)),
            res matches Err(e) ==> e is Xml,
{
        let ghost ev = elements_view(reply.elements@);
        let ghost step = |d: BootLogoInfoView, e: ElementView| boot_logo_step(d, e);
        let mut info = BootLogoInfo {
            exists: false,
            name: String::new(),
            md5: String::new(),
        };
        let n = reply.elements.len();
        let mut i: usize = 0;
        assert(ev.take(0) =~= Seq::<ElementView>::empty());
        while i < n
            invariant
                n == reply.elements@.len(),
                i <= n,
                ev == elements_view(reply.elements@),
                step == (|d: BootLogoInfoView, e: ElementView| boot_logo_step(d, e)),
                info@ == scan(boot_logo_default(), ev.take(i as int), step),
                forall|k: int| 0 <= k < i ==> boot_logo_reads(#[trigger] elements_full(reply.elements@)[k]),
            decreases n - i,
        {
            let e = &reply.elements[i];
            proof {
                lemma_scan_take(boot_logo_default(), ev, i as int, step);
                assert(ev[i as int] == e@);
            }
            if is_named(e, "logo") {
                match attr(e, "exist") {
                    Err(err) => {
                        proof {
                            assert(!boot_logo_reads(elements_full(reply.elements@)[i as int]));
                            lemma_reads_all_fails(elements_full(reply.elements@), |f: ElementFull| boot_logo_reads(f), i as int);
                        }
                        return Err(err);
                    },
                    Ok(None) => {},
                    Ok(Some(v)) => {
                    info.exists = parse_bool(v.as_str());
                },
                }
                match attr(e, "name") {
                    Err(err) => {
                        proof {
                            assert(!boot_logo_reads(elements_full(reply.elements@)[i as int]));
                            lemma_reads_all_fails(elements_full(reply.elements@), |f: ElementFull| boot_logo_reads(f), i as int);
                        }
                        return Err(err);
                    },
                    Ok(None) => {},
                    Ok(Some(v)) => {
                    info.name = v;
                },
                }
                match attr(e, "md5") {
                    Err(err) => {
                        proof {
                            assert(!boot_logo_reads(elements_full(reply.elements@)[i as int]));
                            lemma_reads_all_fails(elements_full(reply.elements@), |f: ElementFull| boot_logo_reads(f), i as int);
                        }
                        return Err(err);
                    },
                    Ok(None) => {},
                    Ok(Some(v)) => {
                    info.md5 = v;
                },
                }
            }
            assert(boot_logo_reads(elements_full(reply.elements@)[i as int]));
            i = i + 1;
        }
        assert(ev.take(n as int) =~= ev);
        Ok(info)
    }

    /// Encode as a `SetBootLogoName` request document.
    pub fn encode_request(&self, guid: &str) -> (res: Result<Vec<u8>, ProtoError>)
        ensures
            res matches Ok(b) && b@ == request_bytes(guid@, SdkMethod::SetBootLogoName, boot_logo_events(self@)),
    {
        let mut x = XmlWriter::new();
        let _ = self.write_body(&mut x);
        let body = x.into_string();
        proof {
            lemma_envelope_render(guid@, "in"@, SdkMethod::SetBootLogoName, None, boot_logo_events(self@));
        }
        encode_request(guid, SdkMethod::SetBootLogoName, body.as_str())
    }

    /// Encode as a `SetBootLogoName` reply document.
    pub fn encode_reply(&self, guid: &str, result: &SdkResult) -> (res: Result<Vec<u8>, ProtoError>)
        ensures
            res matches Ok(b) && b@ == reply_bytes(guid@, SdkMethod::SetBootLogoName, result@, boot_logo_events(self@)),
    {
        let mut x = XmlWriter::new();
        let _ = self.write_body(&mut x);
        let body = x.into_string();
        proof {
            lemma_envelope_render(guid@, "out"@, SdkMethod::SetBootLogoName, Some(result@), boot_logo_events(self@));
        }
        encode_reply(guid, SdkMethod::SetBootLogoName, result, body.as_str())
    }

    /// Decode a document into the body, first surfacing any device error.
    /// The bytes of a successful reply carrying a body decode to that body.
    pub fn decode(bytes: &[u8]) -> (res: Result<BootLogoInfo, ProtoError>)
        ensures
            decodes_to(bytes@, res, |f: ElementFull| boot_logo_reads(f), |v: BootLogoInfo, es: Seq<ElementView>| v@ == boot_logo_scan(es)),
            forall|g: Seq<char>, m: SdkMethod, d: BootLogoInfoView| #[trigger] reply_bytes(g, m, success_code(), boot_logo_events(d))
                == bytes@ ==> (res matches Ok(v) && v@ == d),
    {
        let reply = match decode_checked(bytes) {
            Ok(r) => r,
            Err(e) => {
                proof {
                    assert forall|g: Seq<char>, m: SdkMethod, d: BootLogoInfoView| #[trigger] reply_bytes(g, m, success_code(), boot_logo_events(d))
                        != bytes@ by {
                        if reply_bytes(g, m, success_code(), boot_logo_events(d)) == bytes@ {
                            lemma_boot_logo_wf(d);
                            lemma_envelope_reads_back(bytes@, g, "out"@, m, Some(success_code()), boot_logo_events(d));
                        }
                    }
                }
                return Err(e);
            },
        };
        let res = Self::parse_body(&reply);
        proof {
            lemma_elements_view_full(reply.elements@);
            assert forall|g: Seq<char>, m: SdkMethod, d: BootLogoInfoView| #[trigger] reply_bytes(g, m, success_code(), boot_logo_events(d))
                == bytes@ implies (res matches Ok(v) && v@ == d) by {
                lemma_boot_logo_wf(d);
                lemma_envelope_reads_back(bytes@, g, "out"@, m, Some(success_code()), boot_logo_events(d));
                reveal_strlit("out");
                lemma_boot_logo_roundtrip(g, "out"@, m, Some(success_code()), d);
            }
        }
        res
    }
}

/// Reading back the elements of a written body, in any request or reply
/// envelope, gives the body that was written.
pub proof fn lemma_boot_logo_roundtrip(
    guid: Seq<char>,
    tag: Seq<char>,
    method: SdkMethod,
    result: Option<Seq<char>>,
    d: BootLogoInfoView,
)
    requires
        tag == "in"@ || tag == "out"@,
    ensures
        boot_logo_scan(elements_of(envelope_events(guid, tag, method, result, boot_logo_events(d)))) == d,
{
    reveal_strlit("exist");
    reveal_strlit("guid");
    reveal_strlit("in");
    reveal_strlit("logo");
    reveal_strlit("md5");
    reveal_strlit("name");
    reveal_strlit("out");
    reveal_strlit("sdk");
    let step = |d: BootLogoInfoView, e: ElementView| boot_logo_step(d, e);
    let body = boot_logo_events(d);
    let init = boot_logo_default();
    let h0: ElementView = ("sdk"@, seq![("guid"@, guid)]);
    let h1: ElementView = (tag, crate::sdk::envelope::method_attrs(method, result));
    lemma_envelope_elements(guid, tag, method, result, body);
    lemma_scan_append(init, seq![h0, h1], elements_of(body), step);
    lemma_scan_push(init, Seq::empty(), h0, step);
    lemma_scan_push(init, seq![h0], h1, step);
    assert(Seq::<ElementView>::empty().push(h0) =~= seq![h0]);
    assert(seq![h0].push(h1) =~= seq![h0, h1]);
    assert(scan(init, Seq::<ElementView>::empty(), step) == init);
    assert("sdk"@.len() == 3 && "logo"@.len() == 4);
    assert("in"@.len() == 2 && "logo"@.len() == 4);
    assert("out"@.len() == 3 && "logo"@.len() == 4);
    assert(boot_logo_step(init, h0) == init);
    assert(boot_logo_step(init, h1) == init);
    assert(scan(init, seq![h0, h1], step) == init);
    assert(crate::sdk::xml::plain("exist"@));
    assert(crate::sdk::xml::plain("name"@));
    assert(crate::sdk::xml::plain("md5"@));
    assert("exist"@.len() == 5 && "name"@.len() == 4);
    assert("exist"@.len() == 5 && "md5"@.len() == 3);
    assert("name"@.len() == 4 && "md5"@.len() == 3);
    lemma_attr_lookup(body[0]->Empty_1, 0);
    lemma_attr_lookup(body[0]->Empty_1, 1);
    lemma_attr_lookup(body[0]->Empty_1, 2);
    crate::sdk::messages::lemma_bool_text(d.exists);
    lemma_elements_push(Seq::<XmlEvent>::empty(), body[0]);
    assert(Seq::<XmlEvent>::empty().push(body[0]) =~= seq![body[0]]);
    assert(seq![body[0]] =~= body);
    assert(elements_of(Seq::<XmlEvent>::empty()) =~= Seq::<ElementView>::empty());
    let e0: ElementView = ("logo"@, body[0]->Empty_1);
    assert(elements_of(body) =~= seq![e0]);
    lemma_scan_push(init, Seq::<ElementView>::empty(), e0, step);
    assert(Seq::<ElementView>::empty().push(e0) =~= seq![e0]);
    assert(scan(init, seq![e0], step) =~= d);
}


/// The body is well formed, and none of its elements is named like the
/// envelope's.
pub proof fn lemma_boot_logo_wf(d: BootLogoInfoView)
    ensures
        events_wf(boot_logo_events(d)),
        forall|k: int| 0 <= k < elements_of(boot_logo_events(d)).len() ==> !envelope_name(
            #[trigger] elements_of(boot_logo_events(d))[k].0,
        ),
{
    reveal_strlit("exist");
    reveal_strlit("in");
    reveal_strlit("logo");
    reveal_strlit("md5");
    reveal_strlit("name");
    reveal_strlit("out");
    reveal_strlit("sdk");
    let body = boot_logo_events(d);
    assert forall|k: int| 0 <= k < body.len() implies (#[trigger] body[k] is Empty || body[k] is Text) by {}
    lemma_open_after_flat(Seq::empty(), body);
    assert(name_ok("exist"@) && name_ok("logo"@) && name_ok("md5"@) && name_ok("name"@));

    assert forall|k: int| 0 <= k < body.len() implies event_ok(#[trigger] body[k]) by {
        if k == 0 { assert(keys_ok(body[0]->Empty_1)); }
    }
    lemma_elements_push(Seq::empty(), body[0]);
    assert(Seq::<XmlEvent>::empty().push(body[0]) =~= body);
    assert(elements_of(Seq::<XmlEvent>::empty()) =~= Seq::<ElementView>::empty());
    let els = elements_of(body);
    assert(els.len() == 1);
    assert(els[0].0 == "logo"@);
}

/// The lookups reading the body makes on one element all succeed.
pub open spec fn boot_logo_reads(f: ElementFull) -> bool {
    if f.0 == "logo"@ {
        readable(f, "exist"@) && readable(f, "name"@) && readable(f, "md5"@)
    } else {
        true
    }
}

} // verus!
