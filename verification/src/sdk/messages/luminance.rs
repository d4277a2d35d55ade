//! `GetLuminancePloy` / `SetLuminancePloy`: the brightness policy.

use vstd::prelude::*;
use crate::sdk::xml::{cooked, elements_full, lemma_elements_view_full, lemma_reads_all_fails, readable, reads_all, ElementFull};
use crate::sdk::envelope::{envelope_name, lemma_envelope_reads_back};
use crate::sdk::xml::{events_wf, event_ok, keys_ok, lemma_open_after_flat, lemma_open_after_wrapped, lemma_open_after_append, name_ok};
use crate::error::ProtoError;
use crate::fmt::{bool_str, bool_text, dec, parse_bool, parse_int_or, u64_to_string};
use crate::sdk::envelope::{encode_reply, encode_request, envelope_events, lemma_envelope_elements,
    lemma_envelope_render, reply_bytes, request_bytes, SdkReply};
use crate::sdk::messages::{bool_or, decode_checked, decodes_to, lemma_bool_text, lemma_int_or_dec,
    num_or, or_keep};
use crate::sdk::method::SdkMethod;
use crate::sdk::result::{success_code, SdkResult};
use crate::sdk::xml::{attr, attr_value, attrs_view, elements_of, elements_view, is_named, plain,
    lemma_attr_lookup, lemma_elements_append, lemma_elements_of_empties, lemma_elements_push,
    lemma_render_push, lemma_scan_append, lemma_scan_push, lemma_scan_take, render, scan, AttrsView,
    ElementView, XmlEvent, XmlWriter};

verus! {

/// Body-less `GetLuminancePloy` request.
#[derive(Debug, Clone, Copy, PartialEq, Eq, Default)]
pub struct GetLuminance;

impl GetLuminance {
    /// Encode as a request document.
    pub fn encode_request(&self, guid: &str) -> (res: Result<Vec<u8>, ProtoError>)
        ensures
            res matches Ok(b) && b@ == request_bytes(guid@, SdkMethod::GetLuminancePloy, Seq::empty()),
    {
        proof {
            reveal_strlit("");
            lemma_envelope_render(guid@, "in"@, SdkMethod::GetLuminancePloy, None, Seq::empty());
        }
        encode_request(guid, SdkMethod::GetLuminancePloy, "")
    }

    /// Decode a document, surfacing any device error.
    pub fn decode(bytes: &[u8]) -> (res: Result<GetLuminance, ProtoError>)
        ensures
            decodes_to(bytes@, res, |f: ElementFull| true, |v: GetLuminance, es: Seq<ElementView>| true),
    {
        match decode_checked(bytes) {
            Ok(_) => Ok(GetLuminance),
            Err(e) => Err(e),
        }
    }
}

/// How brightness is chosen.
#[derive(Debug, Clone, Copy, PartialEq, Eq, Structural, Default)]
pub enum LuminanceMode {
    /// Fixed brightness ([`LuminanceInfo::default_value`]).
    #[default]
    Fixed,
    /// Time-of-day schedule ([`LuminanceInfo::items`]).
    Scheduled,
    /// Ambient light sensor, clamped to the sensor range.
    Sensor,
}

/// The text a mode is written as.
pub open spec fn luminance_mode_text(m: LuminanceMode) -> Seq<char> {
    match m {
        LuminanceMode::Fixed => "default"@,
        LuminanceMode::Scheduled => "ploys"@,
        LuminanceMode::Sensor => "sensor"@,
    }
}

/// Every brightness mode, in declaration order.
pub open spec fn luminance_modes() -> Seq<LuminanceMode> {
    seq![
        LuminanceMode::Fixed,
        LuminanceMode::Scheduled,
        LuminanceMode::Sensor,
    ]
}

/// The words the firmware uses for the brightness modes, in declaration
/// order: `default`, `ploys`, `sensor`.
pub proof fn lemma_luminance_mode_texts()
    ensures
        forall|x: LuminanceMode| luminance_modes().contains(x),
        forall|k: int| 0 <= k < luminance_modes().len() ==> luminance_mode_text(#[trigger] luminance_modes()[k]) == seq!["default"@, "ploys"@, "sensor"@][k],
{
    assert forall|x: LuminanceMode| luminance_modes().contains(x) by {
        let k: int = match x {
            LuminanceMode::Fixed => 0,
            LuminanceMode::Scheduled => 1,
            LuminanceMode::Sensor => 2,
        };
        assert(luminance_modes()[k] == x);
    }
}

/// The mode a text reads as: `ploys` and `sensor` exactly, anything else fixed.
pub open spec fn luminance_mode_of(s: Seq<char>) -> LuminanceMode {
    if s == "ploys"@ {
        LuminanceMode::Scheduled
    } else if s == "sensor"@ {
        LuminanceMode::Sensor
    } else {
        LuminanceMode::Fixed
    }
}

/// A mode written out reads back as itself.
pub proof fn lemma_luminance_mode_text(m: LuminanceMode)
    ensures
        luminance_mode_of(luminance_mode_text(m)) == m,
{
    reveal_strlit("default");
    reveal_strlit("ploys");
    reveal_strlit("sensor");
    assert("default"@.len() == 7 && "ploys"@.len() == 5 && "sensor"@.len() == 6);
}

impl LuminanceMode {
    /// The text the firmware uses for this mode.
    pub fn as_str(&self) -> (s: &'static str)
        ensures
            s@ == luminance_mode_text(*self),
    {
        match self {
            LuminanceMode::Fixed => "default",
            LuminanceMode::Scheduled => "ploys",
            LuminanceMode::Sensor => "sensor",
        }
    }

    /// Read a mode: `ploys` is scheduled, `sensor` is the sensor, anything
    /// else fixed.
    pub fn from_str(s: &str) -> (m: LuminanceMode)
        ensures
            m == luminance_mode_of(s@),
    {
        if crate::fmt::str_eq(s, "ploys") {
            LuminanceMode::Scheduled
        } else if crate::fmt::str_eq(s, "sensor") {
            LuminanceMode::Sensor
        } else {
            LuminanceMode::Fixed
        }
    }
}

/// One entry in a time-of-day brightness schedule.
#[derive(Debug, Clone, PartialEq, Eq)]
pub struct LuminanceItem {
    pub enabled: bool,
    /// Start of day, `hh:mm:ss`.
    pub start: String,
    /// Brightness percent, 1–100.
    pub percent: u8,
}

/// A [`LuminanceItem`] as plain values.
pub struct LuminanceItemView {
    pub enabled: bool,
    pub start: Seq<char>,
    pub percent: u8,
}

impl View for LuminanceItem {
    type V = LuminanceItemView;

    open spec fn view(&self) -> LuminanceItemView {
        LuminanceItemView { enabled: self.enabled, start: self.start@, percent: self.percent }
    }
}

impl Default for LuminanceItem {
    /// Enabled, from midnight, at full brightness.
    fn default() -> (it: LuminanceItem)
        ensures
            it@ == (LuminanceItemView { enabled: true, start: "00:00:00"@, percent: 100 }),
    {
        LuminanceItem { enabled: true, start: String::from_str("00:00:00"), percent: 100 }
    }
}

/// The brightness body: the `SetLuminancePloy` request and the
/// `GetLuminancePloy` reply share it. Firmware defaults: 100% fixed, sensor
/// 1–100 over 10s.
#[derive(Debug, Clone, PartialEq, Eq)]
pub struct LuminanceInfo {
    pub mode: LuminanceMode,
    pub default_value: u8,
    pub items: Vec<LuminanceItem>,
    pub sensor_min: u8,
    pub sensor_max: u8,
    pub sensor_time: u8,
}

/// A [`LuminanceInfo`] as plain values.
pub struct LuminanceInfoView {
    pub mode: LuminanceMode,
    pub default_value: u8,
    pub items: Seq<LuminanceItemView>,
    pub sensor_min: u8,
    pub sensor_max: u8,
    pub sensor_time: u8,
}

impl View for LuminanceInfo {
    type V = LuminanceInfoView;

    open spec fn view(&self) -> LuminanceInfoView {
        LuminanceInfoView {
            mode: self.mode,
            default_value: self.default_value,
            items: self.items@.map_values(|it: LuminanceItem| it@),
            sensor_min: self.sensor_min,
            sensor_max: self.sensor_max,
            sensor_time: self.sensor_time,
        }
    }
}

/// The firmware's defaults: 100% fixed, no schedule, sensor 1–100 over 10s.
pub open spec fn luminance_default() -> LuminanceInfoView {
    LuminanceInfoView {
        mode: LuminanceMode::Fixed,
        default_value: 100,
        items: Seq::empty(),
        sensor_min: 1,
        sensor_max: 100,
        sensor_time: 10,
    }
}

impl Default for LuminanceInfo {
    /// The firmware's defaults: 100% fixed, no schedule, sensor 1–100 over 10s.
    fn default() -> (info: LuminanceInfo)
        ensures
            info@ == luminance_default(),
    {
        let info = LuminanceInfo {
            mode: LuminanceMode::Fixed,
            default_value: 100,
            items: Vec::new(),
            sensor_min: 1,
            sensor_max: 100,
            sensor_time: 10,
        };
        assert(info@.items =~= Seq::<LuminanceItemView>::empty());
        info
    }
}

/// The attributes of one schedule `<item/>`.
pub open spec fn luminance_item_attrs(it: LuminanceItemView) -> AttrsView {
    seq![("enable"@, bool_text(it.enabled)), ("start"@, it.start), ("percent"@, dec(it.percent as nat))]
}

/// One schedule `<item/>` element.
pub open spec fn luminance_item_event(it: LuminanceItemView) -> XmlEvent {
    XmlEvent::Empty("item"@, luminance_item_attrs(it))
}

/// The elements before the schedule: mode, fixed value, and the opening `<ploy>`.
pub open spec fn luminance_head(d: LuminanceInfoView) -> Seq<XmlEvent> {
    seq![
        XmlEvent::Empty("mode"@, seq![("value"@, luminance_mode_text(d.mode))]),
        XmlEvent::Empty("default"@, seq![("value"@, dec(d.default_value as nat))]),
        XmlEvent::Start("ploy"@, Seq::empty()),
    ]
}

/// The elements after the schedule: the closing `</ploy>` and the sensor range.
pub open spec fn luminance_tail(d: LuminanceInfoView) -> Seq<XmlEvent> {
    seq![
        XmlEvent::End("ploy"@),
        XmlEvent::Empty("sensor"@, seq![
            ("min"@, dec(d.sensor_min as nat)),
            ("max"@, dec(d.sensor_max as nat)),
            ("time"@, dec(d.sensor_time as nat)),
        ]),
    ]
}

/// The body's elements: mode, fixed value, the schedule as a `<ploy>` pair
/// (the firmware wants the pair even when empty), then the sensor range.
pub open spec fn luminance_events(d: LuminanceInfoView) -> Seq<XmlEvent> {
    luminance_head(d) + d.items.map_values(|it: LuminanceItemView| luminance_item_event(it)) + luminance_tail(d)
}

/// The schedule entry an `<item>` element's attributes describe; missing
/// attributes, or a percent that does not parse, keep the entry defaults.
pub open spec fn luminance_item_of(a: AttrsView) -> LuminanceItemView {
    LuminanceItemView {
        enabled: bool_or(true, attr_value(a, "enable"@)),
        start: or_keep("00:00:00"@, attr_value(a, "start"@)),
        percent: num_or(100, attr_value(a, "percent"@), 100, 255) as u8,
    }
}

/// What one element contributes: `<mode>`, `<default>` and `<sensor>` set
/// their fields (numbers that do not parse read as the firmware default);
/// each `<item>` appends a schedule entry; anything else changes nothing.
pub open spec fn luminance_step(d: LuminanceInfoView, e: ElementView) -> LuminanceInfoView {
    if e.0 == "mode"@ {
        LuminanceInfoView {
            mode: match attr_value(e.1, "value"@) {
                Some(s) => luminance_mode_of(s),
                None => d.mode,
            },
            ..d
        }
    } else if e.0 == "default"@ {
        LuminanceInfoView { default_value: num_or(d.default_value as int, attr_value(e.1, "value"@), 100, 255) as u8, ..d }
    } else if e.0 == "item"@ {
        LuminanceInfoView { items: d.items.push(luminance_item_of(e.1)), ..d }
    } else if e.0 == "sensor"@ {
        LuminanceInfoView {
            sensor_min: num_or(d.sensor_min as int, attr_value(e.1, "min"@), 1, 255) as u8,
            sensor_max: num_or(d.sensor_max as int, attr_value(e.1, "max"@), 100, 255) as u8,
            sensor_time: num_or(d.sensor_time as int, attr_value(e.1, "time"@), 10, 255) as u8,
            ..d
        }
    } else {
        d
    }
}

/// The policy read from a document's elements, starting from the defaults.
pub open spec fn luminance_scan(es: Seq<ElementView>) -> LuminanceInfoView {
    scan(luminance_default(), es, |d: LuminanceInfoView, e: ElementView| luminance_step(d, e))
}

impl LuminanceInfo {
    /// A fixed brightness of `percent`, other settings at their defaults.
    pub fn manual(percent: u8) -> (info: LuminanceInfo)
        ensures
            info@ == (LuminanceInfoView { mode: LuminanceMode::Fixed, default_value: percent, ..luminance_default() }),
    {
        let mut info = LuminanceInfo::default();
        info.mode = LuminanceMode::Fixed;
        info.default_value = percent;
        info
    }

    /// A time-of-day schedule, other settings at their defaults.
    pub fn scheduled(items: Vec<LuminanceItem>) -> (info: LuminanceInfo)
        ensures
            info@ == (LuminanceInfoView {
                mode: LuminanceMode::Scheduled,
                items: items@.map_values(|it: LuminanceItem| it@),
                ..luminance_default()
            }),
    {
        let mut info = LuminanceInfo::default();
        info.mode = LuminanceMode::Scheduled;
        info.items = items;
        info
    }

    /// Sensor-driven brightness over `min..=max` percent, averaged over
    /// `time` seconds, other settings at their defaults.
    pub fn sensor(min: u8, max: u8, time: u8) -> (info: LuminanceInfo)
        ensures
            info@ == (LuminanceInfoView {
                mode: LuminanceMode::Sensor,
                sensor_min: min,
                sensor_max: max,
                sensor_time: time,
                ..luminance_default()
            }),
    {
        let mut info = LuminanceInfo::default();
        info.mode = LuminanceMode::Sensor;
        info.sensor_min = min;
        info.sensor_max = max;
        info.sensor_time = time;
        info
    }

    /// Write the body's elements.
    pub fn write_body(&self, x: &mut XmlWriter) -> (res: Result<(), ProtoError>)
        ensures
            res is Ok,
            final(x)@ == old(x)@ + render(luminance_events(self@)),
    {
        let ghost start = x@;
        let ghost d = self@;
        let ghost head = luminance_head(d);
        let a0 = [("value", self.mode.as_str())];
        x.empty("mode", &a0);
        let dv = u64_to_string(self.default_value as u64);
        let a1 = [("value", dv.as_str())];
        x.empty("default", &a1);
        let none: [(&str, &str); 0] = [];
        x.open("ploy", &none);
        proof {
            assert(attrs_view(a0@) =~= head[0]->Empty_1);
            assert(attrs_view(a1@) =~= head[1]->Empty_1);
            assert(attrs_view(none@) =~= head[2]->Start_1);
            lemma_render_push(Seq::empty(), head[0]);
            lemma_render_push(seq![head[0]], head[1]);
            lemma_render_push(seq![head[0], head[1]], head[2]);
            assert(Seq::<XmlEvent>::empty().push(head[0]) =~= seq![head[0]]);
            assert(seq![head[0]].push(head[1]) =~= seq![head[0], head[1]]);
            assert(seq![head[0], head[1]].push(head[2]) =~= head);
            assert(render(Seq::<XmlEvent>::empty()) =~= Seq::<char>::empty());
            assert(d.items.take(0).map_values(|it: LuminanceItemView| luminance_item_event(it)) =~= Seq::<XmlEvent>::empty());
            assert(head + Seq::<XmlEvent>::empty() =~= head);
        }
        let n = self.items.len();
        let mut i: usize = 0;
        while i < n
            invariant
                n == self.items@.len(),
                i <= n,
                d == self@,
                head == luminance_head(d),
                x@ == start + render(head + d.items.take(i as int).map_values(|it: LuminanceItemView| luminance_item_event(it))),
            decreases n - i,
        {
            let it = &self.items[i];
            let pct = u64_to_string(it.percent as u64);
            let a = [("enable", bool_str(it.enabled)), ("start", it.start.as_str()), ("percent", pct.as_str())];
            x.empty("item", &a);
            proof {
                assert(d.items[i as int] == it@);
                assert(attrs_view(a@) =~= luminance_item_attrs(it@));
                let pre = head + d.items.take(i as int).map_values(|it: LuminanceItemView| luminance_item_event(it));
                lemma_render_push(pre, luminance_item_event(it@));
                assert(pre.push(luminance_item_event(it@)) =~= head + d.items.take(i + 1).map_values(
                    |it: LuminanceItemView| luminance_item_event(it),
                ));
            }
            i = i + 1;
        }
        x.close("ploy");
        let mn = u64_to_string(self.sensor_min as u64);
        let mx = u64_to_string(self.sensor_max as u64);
        let tm = u64_to_string(self.sensor_time as u64);
        let a2 = [("min", mn.as_str()), ("max", mx.as_str()), ("time", tm.as_str())];
        x.empty("sensor", &a2);
        proof {
            let tail = luminance_tail(d);
            let mid = head + d.items.map_values(|it: LuminanceItemView| luminance_item_event(it));
            assert(d.items.take(n as int) =~= d.items);
            assert(attrs_view(a2@) =~= tail[1]->Empty_1);
            lemma_render_push(mid, tail[0]);
            lemma_render_push(mid.push(tail[0]), tail[1]);
            assert(mid.push(tail[0]).push(tail[1]) =~= luminance_events(d));
        }
        Ok(())
    }

    /// Read the policy back out of a decoded envelope by scanning its
    /// elements, starting from the firmware defaults with no schedule.
    pub fn parse_body(reply: &SdkReply) -> (res: Result<LuminanceInfo, ProtoError>)
        ensures
            res is Ok <==> reads_all(elements_full(reply.elements@), |f: ElementFull| luminance_reads(f)),
            res matches Ok(v) ==> v@ == luminance_scan(elements_view(reply.elements@)),
            res matches Err(e) ==> e is Xml,
{
        let ghost ev = elements_view(reply.elements@);
        let ghost step = |d: LuminanceInfoView, e: ElementView| luminance_step(d, e);
        let mut info = LuminanceInfo::default();
        let n = reply.elements.len();
        let mut i: usize = 0;
        assert(ev.take(0) =~= Seq::<ElementView>::empty());
        while i < n
            invariant
                n == reply.elements@.len(),
                i <= n,
                ev == elements_view(reply.elements@),
                step == (|d: LuminanceInfoView, e: ElementView| luminance_step(d, e)),
                info@ == scan(luminance_default(), ev.take(i as int), step),
                forall|k: int| 0 <= k < i ==> luminance_reads(#[trigger] elements_full(reply.elements@)[k]),
            decreases n - i,
        {
            let e = &reply.elements[i];
            proof {
                lemma_scan_take(luminance_default(), ev, i as int, step);
                assert(ev[i as int] == e@);
            }
            if is_named(e, "mode") {
                match attr(e, "value") {
                    Err(err) => {
                        proof {
                            assert(!luminance_reads(elements_full(reply.elements@)[i as int]));
                            lemma_reads_all_fails(elements_full(reply.elements@), |f: ElementFull| luminance_reads(f), i as int);
                        }
                        return Err(err);
                    },
                    Ok(None) => {},
                    Ok(Some(v)) => {
                    info.mode = LuminanceMode::from_str(v.as_str());
                },
                }
            } else if is_named(e, "default") {
                match attr(e, "value") {
                    Err(err) => {
                        proof {
                            assert(!luminance_reads(elements_full(reply.elements@)[i as int]));
                            lemma_reads_all_fails(elements_full(reply.elements@), |f: ElementFull| luminance_reads(f), i as int);
                        }
                        return Err(err);
                    },
                    Ok(None) => {},
                    Ok(Some(v)) => {
                    info.default_value = parse_int_or(v.as_str(), 100, 255) as u8;
                },
                }
            } else if is_named(e, "item") {
                let mut item = LuminanceItem::default();
                match attr(e, "enable") {
                    Err(err) => {
                        proof {
                            assert(!luminance_reads(elements_full(reply.elements@)[i as int]));
                            lemma_reads_all_fails(elements_full(reply.elements@), |f: ElementFull| luminance_reads(f), i as int);
                        }
                        return Err(err);
                    },
                    Ok(None) => {},
                    Ok(Some(v)) => {
                    item.enabled = parse_bool(v.as_str());
                },
                }
                match attr(e, "start") {
                    Err(err) => {
                        proof {
                            assert(!luminance_reads(elements_full(reply.elements@)[i as int]));
                            lemma_reads_all_fails(elements_full(reply.elements@), |f: ElementFull| luminance_reads(f), i as int);
                        }
                        return Err(err);
                    },
                    Ok(None) => {},
                    Ok(Some(v)) => {
                    item.start = v;
                },
                }
                match attr(e, "percent") {
                    Err(err) => {
                        proof {
                            assert(!luminance_reads(elements_full(reply.elements@)[i as int]));
                            lemma_reads_all_fails(elements_full(reply.elements@), |f: ElementFull| luminance_reads(f), i as int);
                        }
                        return Err(err);
                    },
                    Ok(None) => {},
                    Ok(Some(v)) => {
                    item.percent = parse_int_or(v.as_str(), 100, 255) as u8;
                },
                }
                let ghost before = info.items@;
                info.items.push(item);
                proof {
                    assert(info.items@.map_values(|it: LuminanceItem| it@) =~= before.map_values(
                        |it: LuminanceItem| it@,
                    ).push(luminance_item_of(e@.1)));
                }
            } else if is_named(e, "sensor") {
                match attr(e, "min") {
                    Err(err) => {
                        proof {
                            assert(!luminance_reads(elements_full(reply.elements@)[i as int]));
                            lemma_reads_all_fails(elements_full(reply.elements@), |f: ElementFull| luminance_reads(f), i as int);
                        }
                        return Err(err);
                    },
                    Ok(None) => {},
                    Ok(Some(v)) => {
                    info.sensor_min = parse_int_or(v.as_str(), 1, 255) as u8;
                },
                }
                match attr(e, "max") {
                    Err(err) => {
                        proof {
                            assert(!luminance_reads(elements_full(reply.elements@)[i as int]));
                            lemma_reads_all_fails(elements_full(reply.elements@), |f: ElementFull| luminance_reads(f), i as int);
                        }
                        return Err(err);
                    },
                    Ok(None) => {},
                    Ok(Some(v)) => {
                    info.sensor_max = parse_int_or(v.as_str(), 100, 255) as u8;
                },
                }
                match attr(e, "time") {
                    Err(err) => {
                        proof {
                            assert(!luminance_reads(elements_full(reply.elements@)[i as int]));
                            lemma_reads_all_fails(elements_full(reply.elements@), |f: ElementFull| luminance_reads(f), i as int);
                        }
                        return Err(err);
                    },
                    Ok(None) => {},
                    Ok(Some(v)) => {
                    info.sensor_time = parse_int_or(v.as_str(), 10, 255) as u8;
                },
                }
            }
            assert(luminance_reads(elements_full(reply.elements@)[i as int]));
            i = i + 1;
        }
        assert(ev.take(n as int) =~= ev);
        Ok(info)
    }

    /// Encode as a `SetLuminancePloy` request document.
    pub fn encode_request(&self, guid: &str) -> (res: Result<Vec<u8>, ProtoError>)
        ensures
            res matches Ok(b) && b@ == request_bytes(guid@, SdkMethod::SetLuminancePloy, luminance_events(self@)),
    {
        let mut x = XmlWriter::new();
        let _ = self.write_body(&mut x);
        let body = x.into_string();
        proof {
            lemma_envelope_render(guid@, "in"@, SdkMethod::SetLuminancePloy, None, luminance_events(self@));
        }
        encode_request(guid, SdkMethod::SetLuminancePloy, body.as_str())
    }

    /// Encode as a `SetLuminancePloy` reply document.
    pub fn encode_reply(&self, guid: &str, result: &SdkResult) -> (res: Result<Vec<u8>, ProtoError>)
        ensures
            res matches Ok(b) && b@ == reply_bytes(guid@, SdkMethod::SetLuminancePloy, result@, luminance_events(self@)),
    {
        let mut x = XmlWriter::new();
        let _ = self.write_body(&mut x);
        let body = x.into_string();
        proof {
            lemma_envelope_render(guid@, "out"@, SdkMethod::SetLuminancePloy, Some(result@), luminance_events(self@));
        }
        encode_reply(guid, SdkMethod::SetLuminancePloy, result, body.as_str())
    }

    /// Decode a document into the policy, first surfacing any device error.
    /// The bytes of a successful reply carrying a body decode to that body.
    pub fn decode(bytes: &[u8]) -> (res: Result<LuminanceInfo, ProtoError>)
        ensures
            decodes_to(bytes@, res, |f: ElementFull| luminance_reads(f), |v: LuminanceInfo, es: Seq<ElementView>| v@ == luminance_scan(es)),
            forall|g: Seq<char>, m: SdkMethod, d: LuminanceInfoView| #[trigger] reply_bytes(g, m, success_code(), luminance_events(d))
                == bytes@ ==> (res matches Ok(v) && v@ == d),
    {
        let reply = match decode_checked(bytes) {
            Ok(r) => r,
            Err(e) => {
                proof {
                    assert forall|g: Seq<char>, m: SdkMethod, d: LuminanceInfoView| #[trigger] reply_bytes(g, m, success_code(), luminance_events(d))
                        != bytes@ by {
                        if reply_bytes(g, m, success_code(), luminance_events(d)) == bytes@ {
                            lemma_luminance_wf(d);
                            lemma_envelope_reads_back(bytes@, g, "out"@, m, Some(success_code()), luminance_events(d));
                        }
                    }
                }
                return Err(e);
            },
        };
        let res = Self::parse_body(&reply);
        proof {
            lemma_elements_view_full(reply.elements@);
            assert forall|g: Seq<char>, m: SdkMethod, d: LuminanceInfoView| #[trigger] reply_bytes(g, m, success_code(), luminance_events(d))
                == bytes@ implies (res matches Ok(v) && v@ == d) by {
                lemma_luminance_wf(d);
                lemma_envelope_reads_back(bytes@, g, "out"@, m, Some(success_code()), luminance_events(d));
                reveal_strlit("out");
                lemma_luminance_roundtrip(g, "out"@, m, Some(success_code()), d);
            }
        }
        res
    }
}

/// A written schedule entry's attributes read back as the entry.
pub proof fn lemma_luminance_item_of_attrs(it: LuminanceItemView)
    ensures
        luminance_item_of(luminance_item_attrs(it)) == it,
{
    reveal_strlit("enable");
    reveal_strlit("start");
    reveal_strlit("percent");
    let a = luminance_item_attrs(it);
    assert(plain("enable"@) && plain("start"@) && plain("percent"@));
    assert("enable"@.len() == 6 && "start"@.len() == 5 && "percent"@.len() == 7);
    lemma_attr_lookup(a, 0);
    lemma_attr_lookup(a, 1);
    lemma_attr_lookup(a, 2);
    lemma_bool_text(it.enabled);
    lemma_int_or_dec(it.percent as nat, 100, 255);
}

proof fn lemma_scan_luminance_items(d0: LuminanceInfoView, its: Seq<LuminanceItemView>, k: int)
    requires
        0 <= k <= its.len(),
    ensures
        scan(
            d0,
            its.map_values(|it: LuminanceItemView| ("item"@, luminance_item_attrs(it))).take(k),
            |d: LuminanceInfoView, e: ElementView| luminance_step(d, e),
        ) == (LuminanceInfoView { items: d0.items + its.take(k), ..d0 }),
    decreases k,
{
    reveal_strlit("item");
    reveal_strlit("mode");
    reveal_strlit("default");
    assert("item"@.len() == 4 && "mode"@.len() == 4 && "default"@.len() == 7);
    assert("item"@[0] != "mode"@[0]);
    let es = its.map_values(|it: LuminanceItemView| ("item"@, luminance_item_attrs(it)));
    if k == 0 {
        assert(es.take(0) =~= Seq::<ElementView>::empty());
        assert(d0.items + its.take(0) =~= d0.items);
    } else {
        lemma_scan_luminance_items(d0, its, k - 1);
        lemma_scan_take(d0, es, k - 1, |d: LuminanceInfoView, e: ElementView| luminance_step(d, e));
        lemma_luminance_item_of_attrs(its[k - 1]);
        assert((d0.items + its.take(k - 1)).push(its[k - 1]) =~= d0.items + its.take(k));
    }
}

/// Reading back the elements of a written policy, in any request or reply
/// envelope, gives the policy that was written.
pub proof fn lemma_luminance_roundtrip(
    guid: Seq<char>,
    tag: Seq<char>,
    method: SdkMethod,
    result: Option<Seq<char>>,
    d: LuminanceInfoView,
)
    requires
        tag == "in"@ || tag == "out"@,
    ensures
        luminance_scan(elements_of(envelope_events(guid, tag, method, result, luminance_events(d)))) == d,
{
    reveal_strlit("sdk");
    reveal_strlit("in");
    reveal_strlit("out");
    reveal_strlit("mode");
    reveal_strlit("default");
    reveal_strlit("ploy");
    reveal_strlit("item");
    reveal_strlit("sensor");
    reveal_strlit("value");
    reveal_strlit("min");
    reveal_strlit("max");
    reveal_strlit("time");
    assert("sdk"@.len() == 3 && "in"@.len() == 2 && "out"@.len() == 3);
    assert("mode"@.len() == 4 && "default"@.len() == 7 && "ploy"@.len() == 4 && "item"@.len() == 4 && "sensor"@.len() == 6);
    assert("mode"@[0] != "item"@[0] && "ploy"@[0] != "mode"@[0] && "ploy"@[0] != "item"@[0]);
    assert("min"@[1] != "max"@[1] && "time"@.len() == 4);
    let step = |d: LuminanceInfoView, e: ElementView| luminance_step(d, e);
    let init = luminance_default();
    let head = luminance_head(d);
    let tail = luminance_tail(d);
    let ievs = d.items.map_values(|it: LuminanceItemView| luminance_item_event(it));
    let body = luminance_events(d);
    let h0: ElementView = ("sdk"@, seq![("guid"@, guid)]);
    let h1: ElementView = (tag, crate::sdk::envelope::method_attrs(method, result));
    let m0: ElementView = ("mode"@, head[0]->Empty_1);
    let m1: ElementView = ("default"@, head[1]->Empty_1);
    let m2: ElementView = ("ploy"@, Seq::empty());
    let s0: ElementView = ("sensor"@, tail[1]->Empty_1);
    lemma_envelope_elements(guid, tag, method, result, body);
    lemma_elements_append(head, ievs);
    lemma_elements_append(head + ievs, tail);
    lemma_elements_push(Seq::empty(), head[0]);
    lemma_elements_push(seq![head[0]], head[1]);
    lemma_elements_push(seq![head[0], head[1]], head[2]);
    assert(Seq::<XmlEvent>::empty().push(head[0]) =~= seq![head[0]]);
    assert(seq![head[0]].push(head[1]) =~= seq![head[0], head[1]]);
    assert(seq![head[0], head[1]].push(head[2]) =~= head);
    assert(elements_of(Seq::<XmlEvent>::empty()) =~= Seq::<ElementView>::empty());
    assert(elements_of(head) =~= seq![m0, m1, m2]);
    lemma_elements_push(Seq::empty(), tail[0]);
    lemma_elements_push(seq![tail[0]], tail[1]);
    assert(Seq::<XmlEvent>::empty().push(tail[0]) =~= seq![tail[0]]);
    assert(seq![tail[0]].push(tail[1]) =~= tail);
    assert(elements_of(tail) =~= seq![s0]);
    assert forall|i: int| 0 <= i < ievs.len() implies #[trigger] ievs[i] is Empty by {}
    lemma_elements_of_empties(ievs);
    let ies = d.items.map_values(|it: LuminanceItemView| ("item"@, luminance_item_attrs(it)));
    assert(ievs.map_values(|e: XmlEvent| (e->Empty_0, e->Empty_1)) =~= ies);
    let pre = seq![h0, h1, m0, m1, m2];
    assert(seq![h0, h1] + elements_of(body) =~= pre + ies + seq![s0]);
    // the envelope and the head
    lemma_scan_push(init, Seq::empty(), h0, step);
    lemma_scan_push(init, seq![h0], h1, step);
    lemma_scan_push(init, seq![h0, h1], m0, step);
    lemma_scan_push(init, seq![h0, h1, m0], m1, step);
    lemma_scan_push(init, seq![h0, h1, m0, m1], m2, step);
    assert(Seq::<ElementView>::empty().push(h0) =~= seq![h0]);
    assert(seq![h0].push(h1) =~= seq![h0, h1]);
    assert(seq![h0, h1].push(m0) =~= seq![h0, h1, m0]);
    assert(seq![h0, h1, m0].push(m1) =~= seq![h0, h1, m0, m1]);
    assert(seq![h0, h1, m0, m1].push(m2) =~= pre);
    assert(scan(init, Seq::<ElementView>::empty(), step) == init);
    assert(plain("value"@));
    lemma_attr_lookup(m0.1, 0);
    lemma_attr_lookup(m1.1, 0);
    lemma_luminance_mode_text(d.mode);
    lemma_int_or_dec(d.default_value as nat, 100, 255);
    let d1 = LuminanceInfoView { mode: d.mode, default_value: d.default_value, ..init };
    assert(scan(init, pre, step) == d1);
    // the schedule
    lemma_scan_append(init, pre, ies, step);
    lemma_scan_luminance_items(d1, d.items, d.items.len() as int);
    assert(ies.take(d.items.len() as int) =~= ies);
    assert(d.items.take(d.items.len() as int) =~= d.items);
    assert(d1.items + d.items =~= d.items);
    let d2 = LuminanceInfoView { items: d.items, ..d1 };
    assert(scan(init, pre + ies, step) == d2);
    // the sensor range
    lemma_scan_push(init, pre + ies, s0, step);
    assert((pre + ies).push(s0) =~= pre + ies + seq![s0]);
    assert(plain("min"@) && plain("max"@) && plain("time"@));
    lemma_attr_lookup(s0.1, 0);
    lemma_attr_lookup(s0.1, 1);
    lemma_attr_lookup(s0.1, 2);
    lemma_int_or_dec(d.sensor_min as nat, 1, 255);
    lemma_int_or_dec(d.sensor_max as nat, 100, 255);
    lemma_int_or_dec(d.sensor_time as nat, 10, 255);
    assert(scan(init, pre + ies + seq![s0], step) =~= d);
}


/// The body is well formed, and none of its elements is named like the
/// envelope's.
pub proof fn lemma_luminance_wf(d: LuminanceInfoView)
    ensures
        events_wf(luminance_events(d)),
        forall|k: int| 0 <= k < elements_of(luminance_events(d)).len() ==> !envelope_name(
            #[trigger] elements_of(luminance_events(d))[k].0,
        ),
{
    reveal_strlit("sdk");
    reveal_strlit("in");
    reveal_strlit("out");
    reveal_strlit("mode");
    reveal_strlit("default");
    reveal_strlit("ploy");
    reveal_strlit("item");
    reveal_strlit("sensor");
    reveal_strlit("value");
    reveal_strlit("min");
    reveal_strlit("max");
    reveal_strlit("time");
    reveal_strlit("enable");
    reveal_strlit("start");
    reveal_strlit("percent");
    let e: Seq<Seq<char>> = Seq::empty();
    let head = luminance_head(d);
    let tail = luminance_tail(d);
    let ievs = d.items.map_values(|it: LuminanceItemView| luminance_item_event(it));
    let body = luminance_events(d);
    let pre = head.subrange(0, 2);
    let w = seq![head[2]] + ievs + seq![tail[0]];
    let post = seq![tail[1]];
    assert(body =~= pre + w + post);
    assert forall|k: int| 0 <= k < pre.len() implies (#[trigger] pre[k] is Empty || pre[k] is Text) by {}
    assert forall|k: int| 0 <= k < ievs.len() implies (#[trigger] ievs[k] is Empty || ievs[k] is Text) by {}
    assert forall|k: int| 0 <= k < post.len() implies (#[trigger] post[k] is Empty || post[k] is Text) by {}
    lemma_open_after_flat(e, pre);
    lemma_open_after_wrapped(e, "ploy"@, Seq::empty(), ievs);
    lemma_open_after_flat(e, post);
    lemma_open_after_append(Some(e), pre, w);
    lemma_open_after_append(Some(e), pre + w, post);
    assert(name_ok("mode"@) && name_ok("default"@) && name_ok("ploy"@) && name_ok("item"@) && name_ok("sensor"@));
    assert(name_ok("value"@) && name_ok("min"@) && name_ok("max"@) && name_ok("time"@));
    assert(name_ok("enable"@) && name_ok("start"@) && name_ok("percent"@));
    assert("min"@[1] != "max"@[1]);
    assert forall|k: int| 0 <= k < body.len() implies event_ok(#[trigger] body[k]) by {
        if k < 3 {
            assert(body[k] == head[k]);
            if k < 2 {
                assert(keys_ok(head[k]->Empty_1));
            }
        } else if k < 3 + ievs.len() {
            assert(body[k] == ievs[k - 3]);
            assert(keys_ok(luminance_item_attrs(d.items[k - 3])));
        } else {
            assert(body[k] == tail[k - 3 - ievs.len()]);
            assert(keys_ok(tail[1]->Empty_1));
        }
    }
    lemma_elements_append(head, ievs);
    lemma_elements_append(head + ievs, tail);
    lemma_elements_push(Seq::empty(), head[0]);
    lemma_elements_push(seq![head[0]], head[1]);
    lemma_elements_push(seq![head[0], head[1]], head[2]);
    assert(Seq::<XmlEvent>::empty().push(head[0]) =~= seq![head[0]]);
    assert(seq![head[0]].push(head[1]) =~= seq![head[0], head[1]]);
    assert(seq![head[0], head[1]].push(head[2]) =~= head);
    assert(elements_of(Seq::<XmlEvent>::empty()) =~= Seq::<ElementView>::empty());
    lemma_elements_push(Seq::empty(), tail[0]);
    lemma_elements_push(seq![tail[0]], tail[1]);
    assert(Seq::<XmlEvent>::empty().push(tail[0]) =~= seq![tail[0]]);
    assert(seq![tail[0]].push(tail[1]) =~= tail);
    lemma_elements_of_empties(ievs);
    assert(head + ievs + tail =~= body);
    let els = elements_of(body);
    assert forall|k: int| 0 <= k < els.len() implies !envelope_name(#[trigger] els[k].0) by {
        let eh = elements_of(head);
        let ei = elements_of(ievs);
        if k < eh.len() {
            assert(els[k] == eh[k]);
        } else if k < eh.len() + ei.len() {
            assert(els[k] == ei[k - eh.len()]);
            assert(ei[k - eh.len()].0 == "item"@);
        } else {
            assert(els[k] == elements_of(tail)[k - eh.len() - ei.len()]);
        }
    }
}

/// The lookups reading the body makes on one element all succeed.
pub open spec fn luminance_reads(f: ElementFull) -> bool {
    if f.0 == "mode"@ {
        readable(f, "value"@)
    } else if f.0 == "default"@ {
        readable(f, "value"@)
    } else if f.0 == "item"@ {
        readable(f, "enable"@) && readable(f, "start"@) && readable(f, "percent"@)
    } else if f.0 == "sensor"@ {
        readable(f, "min"@) && readable(f, "max"@) && readable(f, "time"@)
    } else {
        true
    }
}

} // verus!
