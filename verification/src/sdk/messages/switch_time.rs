//! `GetSwitchTime` / `SetSwitchTime`: scheduled screen on/off rules.

use vstd::prelude::*;
use crate::sdk::xml::{cooked, elements_full, lemma_elements_view_full, lemma_reads_all_fails, readable, reads_all, ElementFull};
use crate::sdk::envelope::{envelope_name, lemma_envelope_reads_back};
use crate::sdk::xml::{events_wf, event_ok, keys_ok, lemma_open_after_flat, lemma_open_after_wrapped, lemma_open_after_append, name_ok};
use crate::error::ProtoError;
use crate::fmt::{bool_str, bool_text, parse_bool};
use crate::sdk::envelope::{encode_reply, encode_request, envelope_events, lemma_envelope_elements,
    lemma_envelope_render, reply_bytes, request_bytes, SdkReply};
use crate::sdk::messages::{bool_or, decode_checked, decodes_to, lemma_bool_text, or_keep};
use crate::sdk::method::SdkMethod;
use crate::sdk::result::{success_code, SdkResult};
use crate::sdk::xml::{attr, attr_value, attrs_view, elements_of, elements_view, is_named, plain,
    lemma_attr_lookup, lemma_elements_append, lemma_elements_of_empties, lemma_elements_push,
    lemma_render_push, lemma_scan_append, lemma_scan_push, lemma_scan_take, render, scan, AttrsView,
    ElementView, XmlEvent, XmlWriter};

verus! {

/// Body-less `GetSwitchTime` request.
#[derive(Debug, Clone, Copy, PartialEq, Eq, Default)]
pub struct GetSwitchTime;

impl GetSwitchTime {
    /// Encode as a request document.
    pub fn encode_request(&self, guid: &str) -> (res: Result<Vec<u8>, ProtoError>)
        ensures
            res matches Ok(b) && b@ == request_bytes(guid@, SdkMethod::GetSwitchTime, Seq::empty()),
    {
        proof {
            reveal_strlit("");
            lemma_envelope_render(guid@, "in"@, SdkMethod::GetSwitchTime, None, Seq::empty());
        }
        encode_request(guid, SdkMethod::GetSwitchTime, "")
    }

    /// Decode a document, surfacing any device error.
    pub fn decode(bytes: &[u8]) -> (res: Result<GetSwitchTime, ProtoError>)
        ensures
            decodes_to(bytes@, res, |f: ElementFull| true, |v: GetSwitchTime, es: Seq<ElementView>| true),
    {
        match decode_checked(bytes) {
            Ok(_) => Ok(GetSwitchTime),
            Err(e) => Err(e),
        }
    }
}

/// One on/off window.
#[derive(Debug, Clone, PartialEq, Eq)]
pub struct SwitchTimeItem {
    /// `true` opens the screen for the window, `false` closes it.
    pub enabled: bool,
    /// Window start, `hh:mm:ss`.
    pub start: String,
    /// Window end, `hh:mm:ss`.
    pub end: String,
}

/// A [`SwitchTimeItem`] as plain values.
pub struct SwitchTimeItemView {
    pub enabled: bool,
    pub start: Seq<char>,
    pub end: Seq<char>,
}

impl View for SwitchTimeItem {
    type V = SwitchTimeItemView;

    open spec fn view(&self) -> SwitchTimeItemView {
        SwitchTimeItemView { enabled: self.enabled, start: self.start@, end: self.end@ }
    }
}

impl Default for SwitchTimeItem {
    /// An opening window with no times set.
    fn default() -> (it: SwitchTimeItem)
        ensures
            it@ == (SwitchTimeItemView { enabled: true, start: Seq::empty(), end: Seq::empty() }),
    {
        SwitchTimeItem { enabled: true, start: String::new(), end: String::new() }
    }
}

/// The schedule body: the `SetSwitchTime` request and the `GetSwitchTime`
/// reply share it.
#[derive(Debug, Clone, PartialEq, Eq)]
pub struct SwitchTimeInfo {
    /// Whether the screen is open by default (outside any rule).
    pub open_enabled: bool,
    /// Whether the scheduled rules are active.
    pub ploy_enabled: bool,
    pub items: Vec<SwitchTimeItem>,
}

/// A [`SwitchTimeInfo`] as plain values.
pub struct SwitchTimeInfoView {
    pub open_enabled: bool,
    pub ploy_enabled: bool,
    pub items: Seq<SwitchTimeItemView>,
}

impl View for SwitchTimeInfo {
    type V = SwitchTimeInfoView;

    open spec fn view(&self) -> SwitchTimeInfoView {
        SwitchTimeInfoView {
            open_enabled: self.open_enabled,
            ploy_enabled: self.ploy_enabled,
            items: self.items@.map_values(|it: SwitchTimeItem| it@),
        }
    }
}

impl Default for SwitchTimeInfo {
    /// Open by default, with no active rules.
    fn default() -> (info: SwitchTimeInfo)
        ensures
            info@ == (SwitchTimeInfoView { open_enabled: true, ploy_enabled: false, items: Seq::empty() }),
    {
        let info = SwitchTimeInfo { open_enabled: true, ploy_enabled: false, items: Vec::new() };
        assert(info@.items =~= Seq::<SwitchTimeItemView>::empty());
        info
    }
}

/// What parsing starts from: closed by default, no active rules, no windows.
pub open spec fn switch_time_parse_start() -> SwitchTimeInfoView {
    SwitchTimeInfoView { open_enabled: false, ploy_enabled: false, items: Seq::empty() }
}

/// The attributes of one window `<item/>`.
pub open spec fn switch_item_attrs(it: SwitchTimeItemView) -> AttrsView {
    seq![("enable"@, bool_text(it.enabled)), ("start"@, it.start), ("end"@, it.end)]
}

/// One window `<item/>` element.
pub open spec fn switch_item_event(it: SwitchTimeItemView) -> XmlEvent {
    XmlEvent::Empty("item"@, switch_item_attrs(it))
}

/// The elements before the windows: `<open enable/>` and the opening `<ploy enable>`.
pub open spec fn switch_time_head(d: SwitchTimeInfoView) -> Seq<XmlEvent> {
    seq![
        XmlEvent::Empty("open"@, seq![("enable"@, bool_text(d.open_enabled))]),
        XmlEvent::Start("ploy"@, seq![("enable"@, bool_text(d.ploy_enabled))]),
    ]
}

/// The body's elements: the default state, then the windows inside `<ploy>`.
pub open spec fn switch_time_events(d: SwitchTimeInfoView) -> Seq<XmlEvent> {
    switch_time_head(d) + d.items.map_values(|it: SwitchTimeItemView| switch_item_event(it))
        + seq![XmlEvent::End("ploy"@)]
}

/// The window an `<item>` element's attributes describe; missing attributes
/// keep the window defaults.
pub open spec fn switch_item_of(a: AttrsView) -> SwitchTimeItemView {
    SwitchTimeItemView {
        enabled: bool_or(true, attr_value(a, "enable"@)),
        start: or_keep(Seq::empty(), attr_value(a, "start"@)),
        end: or_keep(Seq::empty(), attr_value(a, "end"@)),
    }
}

/// What one element contributes: `<open>` and `<ploy>` set their flags;
/// each `<item>` appends a window; anything else changes nothing.
pub open spec fn switch_time_step(d: SwitchTimeInfoView, e: ElementView) -> SwitchTimeInfoView {
    if e.0 == "open"@ {
        SwitchTimeInfoView { open_enabled: bool_or(d.open_enabled, attr_value(e.1, "enable"@)), ..d }
    } else if e.0 == "ploy"@ {
        SwitchTimeInfoView { ploy_enabled: bool_or(d.ploy_enabled, attr_value(e.1, "enable"@)), ..d }
    } else if e.0 == "item"@ {
        SwitchTimeInfoView { items: d.items.push(switch_item_of(e.1)), ..d }
    } else {
        d
    }
}

/// The schedule read from a document's elements.
pub open spec fn switch_time_scan(es: Seq<ElementView>) -> SwitchTimeInfoView {
    scan(switch_time_parse_start(), es, |d: SwitchTimeInfoView, e: ElementView| switch_time_step(d, e))
}

impl SwitchTimeInfo {
    /// Write the body's elements.
    pub fn write_body(&self, x: &mut XmlWriter) -> (res: Result<(), ProtoError>)
        ensures
            res is Ok,
            final(x)@ == old(x)@ + render(switch_time_events(self@)),
    {
        let ghost start = x@;
        let ghost d = self@;
        let ghost head = switch_time_head(d);
        let a0 = [("enable", bool_str(self.open_enabled))];
        x.empty("open", &a0);
        let a1 = [("enable", bool_str(self.ploy_enabled))];
        x.open("ploy", &a1);
        proof {
            assert(attrs_view(a0@) =~= head[0]->Empty_1);
            assert(attrs_view(a1@) =~= head[1]->Start_1);
            lemma_render_push(Seq::empty(), head[0]);
            lemma_render_push(seq![head[0]], head[1]);
            assert(Seq::<XmlEvent>::empty().push(head[0]) =~= seq![head[0]]);
            assert(seq![head[0]].push(head[1]) =~= head);
            assert(render(Seq::<XmlEvent>::empty()) =~= Seq::<char>::empty());
            assert(d.items.take(0).map_values(|it: SwitchTimeItemView| switch_item_event(it)) =~= Seq::<XmlEvent>::empty());
            assert(head + Seq::<XmlEvent>::empty() =~= head);
        }
        let n = self.items.len();
        let mut i: usize = 0;
        while i < n
            invariant
                n == self.items@.len(),
                i <= n,
                d == self@,
                head == switch_time_head(d),
                x@ == start + render(head + d.items.take(i as int).map_values(|it: SwitchTimeItemView| switch_item_event(it))),
            decreases n - i,
        {
            let it = &self.items[i];
            let a = [("enable", bool_str(it.enabled)), ("start", it.start.as_str()), ("end", it.end.as_str())];
            x.empty("item", &a);
            proof {
                assert(d.items[i as int] == it@);
                assert(attrs_view(a@) =~= switch_item_attrs(it@));
                let pre = head + d.items.take(i as int).map_values(|it: SwitchTimeItemView| switch_item_event(it));
                lemma_render_push(pre, switch_item_event(it@));
                assert(pre.push(switch_item_event(it@)) =~= head + d.items.take(i + 1).map_values(
                    |it: SwitchTimeItemView| switch_item_event(it),
                ));
            }
            i = i + 1;
        }
        x.close("ploy");
        proof {
            let mid = head + d.items.map_values(|it: SwitchTimeItemView| switch_item_event(it));
            assert(d.items.take(n as int) =~= d.items);
            lemma_render_push(mid, XmlEvent::End("ploy"@));
            assert(mid.push(XmlEvent::End("ploy"@)) =~= switch_time_events(d));
        }
        Ok(())
    }

    /// Read the schedule back out of a decoded envelope by scanning its
    /// elements, starting closed by default with no active rules.
    pub fn parse_body(reply: &SdkReply) -> (res: Result<SwitchTimeInfo, ProtoError>)
        ensures
            res is Ok <==> reads_all(elements_full(reply.elements@), |f: ElementFull| switch_time_reads(f)),
            res matches Ok(v) ==> v@ == switch_time_scan(elements_view(reply.elements@)),
            res matches Err(e) ==> e is Xml,
{
        let ghost ev = elements_view(reply.elements@);
        let ghost step = |d: SwitchTimeInfoView, e: ElementView| switch_time_step(d, e);
        let mut info = SwitchTimeInfo { open_enabled: false, ploy_enabled: false, items: Vec::new() };
        let n = reply.elements.len();
        let mut i: usize = 0;
        assert(ev.take(0) =~= Seq::<ElementView>::empty());
        assert(info@.items =~= Seq::<SwitchTimeItemView>::empty());
        assert(info@ == switch_time_parse_start());
        while i < n
            invariant
                n == reply.elements@.len(),
                i <= n,
                ev == elements_view(reply.elements@),
                step == (|d: SwitchTimeInfoView, e: ElementView| switch_time_step(d, e)),
                info@ == scan(switch_time_parse_start(), ev.take(i as int), step),
                forall|k: int| 0 <= k < i ==> switch_time_reads(#[trigger] elements_full(reply.elements@)[k]),
            decreases n - i,
        {
            let e = &reply.elements[i];
            proof {
                lemma_scan_take(switch_time_parse_start(), ev, i as int, step);
                assert(ev[i as int] == e@);
            }
            if is_named(e, "open") {
                match attr(e, "enable") {
                    Err(err) => {
                        proof {
                            assert(!switch_time_reads(elements_full(reply.elements@)[i as int]));
                            lemma_reads_all_fails(elements_full(reply.elements@), |f: ElementFull| switch_time_reads(f), i as int);
                        }
                        return Err(err);
                    },
                    Ok(None) => {},
                    Ok(Some(v)) => {
                    info.open_enabled = parse_bool(v.as_str());
                },
                }
            } else if is_named(e, "ploy") {
                match attr(e, "enable") {
                    Err(err) => {
                        proof {
                            assert(!switch_time_reads(elements_full(reply.elements@)[i as int]));
                            lemma_reads_all_fails(elements_full(reply.elements@), |f: ElementFull| switch_time_reads(f), i as int);
                        }
                        return Err(err);
                    },
                    Ok(None) => {},
                    Ok(Some(v)) => {
                    info.ploy_enabled = parse_bool(v.as_str());
                },
                }
            } else if is_named(e, "item") {
                let mut item = SwitchTimeItem::default();
                match attr(e, "enable") {
                    Err(err) => {
                        proof {
                            assert(!switch_time_reads(elements_full(reply.elements@)[i as int]));
                            lemma_reads_all_fails(elements_full(reply.elements@), |f: ElementFull| switch_time_reads(f), i as int);
                        }
                        return Err(err);
                    },
                    Ok(None) => {},
                    Ok(Some(v)) => {
                    item.enabled = parse_bool(v.as_str());
                },
                }
                match attr(e, "start") {
                    Err(err) => {
                        proof {
                            assert(!switch_time_reads(elements_full(reply.elements@)[i as int]));
                            lemma_reads_all_fails(elements_full(reply.elements@), |f: ElementFull| switch_time_reads(f), i as int);
                        }
                        return Err(err);
                    },
                    Ok(None) => {},
                    Ok(Some(v)) => {
                    item.start = v;
                },
                }
                match attr(e, "end") {
                    Err(err) => {
                        proof {
                            assert(!switch_time_reads(elements_full(reply.elements@)[i as int]));
                            lemma_reads_all_fails(elements_full(reply.elements@), |f: ElementFull| switch_time_reads(f), i as int);
                        }
                        return Err(err);
                    },
                    Ok(None) => {},
                    Ok(Some(v)) => {
                    item.end = v;
                },
                }
                let ghost before = info.items@;
                info.items.push(item);
                proof {
                    assert(info.items@.map_values(|it: SwitchTimeItem| it@) =~= before.map_values(
                        |it: SwitchTimeItem| it@,
                    ).push(switch_item_of(e@.1)));
                }
            }
            assert(switch_time_reads(elements_full(reply.elements@)[i as int]));
            i = i + 1;
        }
        assert(ev.take(n as int) =~= ev);
        Ok(info)
    }

    /// Encode as a `SetSwitchTime` request document.
    pub fn encode_request(&self, guid: &str) -> (res: Result<Vec<u8>, ProtoError>)
        ensures
            res matches Ok(b) && b@ == request_bytes(guid@, SdkMethod::SetSwitchTime, switch_time_events(self@)),
    {
        let mut x = XmlWriter::new();
        let _ = self.write_body(&mut x);
        let body = x.into_string();
        proof {
            lemma_envelope_render(guid@, "in"@, SdkMethod::SetSwitchTime, None, switch_time_events(self@));
        }
        encode_request(guid, SdkMethod::SetSwitchTime, body.as_str())
    }

    /// Encode as a `SetSwitchTime` reply document.
    pub fn encode_reply(&self, guid: &str, result: &SdkResult) -> (res: Result<Vec<u8>, ProtoError>)
        ensures
            res matches Ok(b) && b@ == reply_bytes(guid@, SdkMethod::SetSwitchTime, result@, switch_time_events(self@)),
    {
        let mut x = XmlWriter::new();
        let _ = self.write_body(&mut x);
        let body = x.into_string();
        proof {
            lemma_envelope_render(guid@, "out"@, SdkMethod::SetSwitchTime, Some(result@), switch_time_events(self@));
        }
        encode_reply(guid, SdkMethod::SetSwitchTime, result, body.as_str())
    }

    /// Decode a document into the schedule, first surfacing any device error.
    /// The bytes of a successful reply carrying a body decode to that body.
    pub fn decode(bytes: &[u8]) -> (res: Result<SwitchTimeInfo, ProtoError>)
        ensures
            decodes_to(bytes@, res, |f: ElementFull| switch_time_reads(f), |v: SwitchTimeInfo, es: Seq<ElementView>| v@ == switch_time_scan(es)),
            forall|g: Seq<char>, m: SdkMethod, d: SwitchTimeInfoView| #[trigger] reply_bytes(g, m, success_code(), switch_time_events(d))
                == bytes@ ==> (res matches Ok(v) && v@ == d),
    {
        let reply = match decode_checked(bytes) {
            Ok(r) => r,
            Err(e) => {
                proof {
                    assert forall|g: Seq<char>, m: SdkMethod, d: SwitchTimeInfoView| #[trigger] reply_bytes(g, m, success_code(), switch_time_events(d))
                        != bytes@ by {
                        if reply_bytes(g, m, success_code(), switch_time_events(d)) == bytes@ {
                            lemma_switch_time_wf(d);
                            lemma_envelope_reads_back(bytes@, g, "out"@, m, Some(success_code()), switch_time_events(d));
                        }
                    }
                }
                return Err(e);
            },
        };
        let res = Self::parse_body(&reply);
        proof {
            lemma_elements_view_full(reply.elements@);
            assert forall|g: Seq<char>, m: SdkMethod, d: SwitchTimeInfoView| #[trigger] reply_bytes(g, m, success_code(), switch_time_events(d))
                == bytes@ implies (res matches Ok(v) && v@ == d) by {
                lemma_switch_time_wf(d);
                lemma_envelope_reads_back(bytes@, g, "out"@, m, Some(success_code()), switch_time_events(d));
                reveal_strlit("out");
                lemma_switch_time_roundtrip(g, "out"@, m, Some(success_code()), d);
            }
        }
        res
    }
}

/// A written window's attributes read back as the window.
pub proof fn lemma_switch_item_of_attrs(it: SwitchTimeItemView)
    ensures
        switch_item_of(switch_item_attrs(it)) == it,
{
    reveal_strlit("enable");
    reveal_strlit("start");
    reveal_strlit("end");
    let a = switch_item_attrs(it);
    assert(plain("enable"@) && plain("start"@) && plain("end"@));
    assert("enable"@.len() == 6 && "start"@.len() == 5 && "end"@.len() == 3);
    lemma_attr_lookup(a, 0);
    lemma_attr_lookup(a, 1);
    lemma_attr_lookup(a, 2);
    lemma_bool_text(it.enabled);
}

proof fn lemma_scan_switch_items(d0: SwitchTimeInfoView, its: Seq<SwitchTimeItemView>, k: int)
    requires
        0 <= k <= its.len(),
    ensures
        scan(
            d0,
            its.map_values(|it: SwitchTimeItemView| ("item"@, switch_item_attrs(it))).take(k),
            |d: SwitchTimeInfoView, e: ElementView| switch_time_step(d, e),
        ) == (SwitchTimeInfoView { items: d0.items + its.take(k), ..d0 }),
    decreases k,
{
    reveal_strlit("item");
    reveal_strlit("open");
    reveal_strlit("ploy");
    assert("item"@[0] != "open"@[0] && "item"@[0] != "ploy"@[0]);
    let es = its.map_values(|it: SwitchTimeItemView| ("item"@, switch_item_attrs(it)));
    if k == 0 {
        assert(es.take(0) =~= Seq::<ElementView>::empty());
        assert(d0.items + its.take(0) =~= d0.items);
    } else {
        lemma_scan_switch_items(d0, its, k - 1);
        lemma_scan_take(d0, es, k - 1, |d: SwitchTimeInfoView, e: ElementView| switch_time_step(d, e));
        lemma_switch_item_of_attrs(its[k - 1]);
        assert((d0.items + its.take(k - 1)).push(its[k - 1]) =~= d0.items + its.take(k));
    }
}

/// Reading back the elements of a written schedule, in any request or reply
/// envelope, gives the schedule that was written.
pub proof fn lemma_switch_time_roundtrip(
    guid: Seq<char>,
    tag: Seq<char>,
    method: SdkMethod,
    result: Option<Seq<char>>,
    d: SwitchTimeInfoView,
)
    requires
        tag == "in"@ || tag == "out"@,
    ensures
        switch_time_scan(elements_of(envelope_events(guid, tag, method, result, switch_time_events(d)))) == d,
{
    reveal_strlit("sdk");
    reveal_strlit("in");
    reveal_strlit("out");
    reveal_strlit("open");
    reveal_strlit("ploy");
    reveal_strlit("item");
    reveal_strlit("enable");
    assert("sdk"@.len() == 3 && "in"@.len() == 2 && "out"@.len() == 3);
    assert("open"@.len() == 4 && "ploy"@.len() == 4 && "item"@.len() == 4);
    assert("open"@[0] != "ploy"@[0] && "item"@[0] != "open"@[0] && "item"@[0] != "ploy"@[0]);
    let step = |d: SwitchTimeInfoView, e: ElementView| switch_time_step(d, e);
    let init = switch_time_parse_start();
    let head = switch_time_head(d);
    let close = XmlEvent::End("ploy"@);
    let ievs = d.items.map_values(|it: SwitchTimeItemView| switch_item_event(it));
    let body = switch_time_events(d);
    let h0: ElementView = ("sdk"@, seq![("guid"@, guid)]);
    let h1: ElementView = (tag, crate::sdk::envelope::method_attrs(method, result));
    let m0: ElementView = ("open"@, head[0]->Empty_1);
    let m1: ElementView = ("ploy"@, head[1]->Start_1);
    lemma_envelope_elements(guid, tag, method, result, body);
    lemma_elements_append(head, ievs);
    lemma_elements_append(head + ievs, seq![close]);
    lemma_elements_push(Seq::empty(), head[0]);
    lemma_elements_push(seq![head[0]], head[1]);
    lemma_elements_push(Seq::empty(), close);
    assert(Seq::<XmlEvent>::empty().push(head[0]) =~= seq![head[0]]);
    assert(seq![head[0]].push(head[1]) =~= head);
    assert(Seq::<XmlEvent>::empty().push(close) =~= seq![close]);
    assert(elements_of(Seq::<XmlEvent>::empty()) =~= Seq::<ElementView>::empty());
    assert(elements_of(head) =~= seq![m0, m1]);
    assert(elements_of(seq![close]) =~= Seq::<ElementView>::empty());
    assert forall|i: int| 0 <= i < ievs.len() implies #[trigger] ievs[i] is Empty by {}
    lemma_elements_of_empties(ievs);
    let ies = d.items.map_values(|it: SwitchTimeItemView| ("item"@, switch_item_attrs(it)));
    assert(ievs.map_values(|e: XmlEvent| (e->Empty_0, e->Empty_1)) =~= ies);
    let pre = seq![h0, h1, m0, m1];
    assert(seq![h0, h1] + elements_of(body) =~= pre + ies);
    lemma_scan_push(init, Seq::empty(), h0, step);
    lemma_scan_push(init, seq![h0], h1, step);
    lemma_scan_push(init, seq![h0, h1], m0, step);
    lemma_scan_push(init, seq![h0, h1, m0], m1, step);
    assert(Seq::<ElementView>::empty().push(h0) =~= seq![h0]);
    assert(seq![h0].push(h1) =~= seq![h0, h1]);
    assert(seq![h0, h1].push(m0) =~= seq![h0, h1, m0]);
    assert(seq![h0, h1, m0].push(m1) =~= pre);
    assert(scan(init, Seq::<ElementView>::empty(), step) == init);
    assert(plain("enable"@));
    lemma_attr_lookup(m0.1, 0);
    lemma_attr_lookup(m1.1, 0);
    lemma_bool_text(d.open_enabled);
    lemma_bool_text(d.ploy_enabled);
    let d1 = SwitchTimeInfoView { open_enabled: d.open_enabled, ploy_enabled: d.ploy_enabled, items: Seq::empty() };
    assert(scan(init, pre, step) == d1);
    lemma_scan_append(init, pre, ies, step);
    lemma_scan_switch_items(d1, d.items, d.items.len() as int);
    assert(ies.take(d.items.len() as int) =~= ies);
    assert(d.items.take(d.items.len() as int) =~= d.items);
    assert(d1.items + d.items =~= d.items);
    assert(scan(init, pre + ies, step) =~= d);
}


/// The body is well formed, and none of its elements is named like the
/// envelope's.
pub proof fn lemma_switch_time_wf(d: SwitchTimeInfoView)
    ensures
        events_wf(switch_time_events(d)),
        forall|k: int| 0 <= k < elements_of(switch_time_events(d)).len() ==> !envelope_name(
            #[trigger] elements_of(switch_time_events(d))[k].0,
        ),
{
    reveal_strlit("sdk");
    reveal_strlit("in");
    reveal_strlit("out");
    reveal_strlit("open");
    reveal_strlit("ploy");
    reveal_strlit("item");
    reveal_strlit("enable");
    reveal_strlit("start");
    reveal_strlit("end");
    let e: Seq<Seq<char>> = Seq::empty();
    let head = switch_time_head(d);
    let mid = d.items.map_values(|it: SwitchTimeItemView| switch_item_event(it));
    let body = switch_time_events(d);
    let pre = seq![head[0]];
    let w = seq![head[1]] + mid + seq![XmlEvent::End("ploy"@)];
    assert(body =~= pre + w);
    assert forall|k: int| 0 <= k < pre.len() implies (#[trigger] pre[k] is Empty || pre[k] is Text) by {}
    assert forall|k: int| 0 <= k < mid.len() implies (#[trigger] mid[k] is Empty || mid[k] is Text) by {}
    lemma_open_after_flat(e, pre);
    lemma_open_after_wrapped(e, "ploy"@, seq![("enable"@, bool_text(d.ploy_enabled))], mid);
    lemma_open_after_append(Some(e), pre, w);
    assert(name_ok("open"@) && name_ok("ploy"@) && name_ok("item"@) && name_ok("enable"@) && name_ok("start"@)
        && name_ok("end"@));
    assert forall|k: int| 0 <= k < body.len() implies event_ok(#[trigger] body[k]) by {
        if k < 2 {
            assert(body[k] == head[k]);
        } else if k < 2 + mid.len() {
            assert(body[k] == mid[k - 2]);
            assert(keys_ok(switch_item_attrs(d.items[k - 2])));
        }
    }
    let close = seq![XmlEvent::End("ploy"@)];
    lemma_elements_append(head, mid);
    lemma_elements_append(head + mid, close);
    lemma_elements_push(Seq::empty(), head[0]);
    lemma_elements_push(seq![head[0]], head[1]);
    assert(Seq::<XmlEvent>::empty().push(head[0]) =~= seq![head[0]]);
    assert(seq![head[0]].push(head[1]) =~= head);
    lemma_elements_push(Seq::empty(), close[0]);
    assert(Seq::<XmlEvent>::empty().push(close[0]) =~= close);
    assert(elements_of(Seq::<XmlEvent>::empty()) =~= Seq::<ElementView>::empty());
    lemma_elements_of_empties(mid);
    assert(head + mid + close =~= body);
    let els = elements_of(body);
    assert forall|k: int| 0 <= k < els.len() implies !envelope_name(#[trigger] els[k].0) by {
        let eh = elements_of(head);
        let ei = elements_of(mid);
        if k < eh.len() {
            assert(els[k] == eh[k]);
        } else if k < eh.len() + ei.len() {
            assert(els[k] == ei[k - eh.len()]);
            assert(ei[k - eh.len()].0 == "item"@);
        }
    }
}

/// The lookups reading the body makes on one element all succeed.
pub open spec fn switch_time_reads(f: ElementFull) -> bool {
    if f.0 == "open"@ {
        readable(f, "enable"@)
    } else if f.0 == "ploy"@ {
        readable(f, "enable"@)
    } else if f.0 == "item"@ {
        readable(f, "enable"@) && readable(f, "start"@) && readable(f, "end"@)
    } else {
        true
    }
}

} // verus!
