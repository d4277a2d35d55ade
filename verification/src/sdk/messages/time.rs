//! `GetTimeInfo` / `SetTimeInfo`: timezone, DST, and clock sync.

use vstd::prelude::*;
use crate::sdk::xml::{cooked, elements_full, lemma_elements_view_full, lemma_reads_all_fails, readable, reads_all, ElementFull};
use crate::sdk::envelope::{envelope_name, lemma_envelope_reads_back};
use crate::sdk::xml::{events_wf, event_ok, keys_ok, lemma_open_after_flat, name_ok};
use crate::error::ProtoError;
use crate::fmt::{bool_str, bool_text, parse_bool};
use crate::sdk::envelope::{encode_reply, encode_request, envelope_events, lemma_envelope_elements,
    lemma_envelope_render, reply_bytes, request_bytes, SdkReply};
use crate::sdk::messages::{bool_or, decode_checked, decodes_to, or_keep};
use crate::sdk::method::SdkMethod;
use crate::sdk::result::{success_code, SdkResult};
use crate::sdk::xml::{attr, attr_value, attrs_view, elements_of, elements_view, is_named,
    lemma_attr_lookup, lemma_elements_push, lemma_render_take, lemma_scan_append, lemma_scan_push,
    lemma_scan_take, render, scan, ElementView, XmlEvent, XmlWriter};

verus! {

/// Body-less `GetTimeInfo` request.
#[derive(Debug, Clone, Copy, PartialEq, Eq, Default)]
pub struct GetTime;

impl GetTime {
    /// Encode as a request document.
    pub fn encode_request(&self, guid: &str) -> (res: Result<Vec<u8>, ProtoError>)
        ensures
            res matches Ok(b) && b@ == request_bytes(guid@, SdkMethod::GetTimeInfo, Seq::empty()),
    {
        proof {
            reveal_strlit("");
            lemma_envelope_render(guid@, "in"@, SdkMethod::GetTimeInfo, None, Seq::empty());
        }
        encode_request(guid, SdkMethod::GetTimeInfo, "")
    }

    /// Decode a document, surfacing any device error.
    pub fn decode(bytes: &[u8]) -> (res: Result<GetTime, ProtoError>)
        ensures
            decodes_to(bytes@, res, |f: ElementFull| true, |v: GetTime, es: Seq<ElementView>| true),
    {
        match decode_checked(bytes) {
            Ok(_) => Ok(GetTime),
            Err(e) => Err(e),
        }
    }
}

/// The clock body: the `SetTimeInfo` request and the `GetTimeInfo` reply share it.
#[derive(Debug, Clone, Default, PartialEq, Eq)]
pub struct TimeInfo {
    /// Timezone label, e.g. `(UTC+03:00)Istanbul`.
    pub timezone: String,
    /// Whether daylight-saving is applied.
    pub summer: bool,
    /// Sync mode: `none`, `gps`, `network`, or `auto`.
    pub sync: String,
    /// `YYYY-MM-DD hh:mm:ss`, honored when `sync` is `none`.
    pub time: String,
}

/// A [`TimeInfo`] as plain values.
pub struct TimeInfoView {
    pub timezone: Seq<char>,
    pub summer: bool,
    pub sync: Seq<char>,
    pub time: Seq<char>,
}

impl View for TimeInfo {
    type V = TimeInfoView;

    open spec fn view(&self) -> TimeInfoView {
        TimeInfoView {
            timezone: self.timezone@,
            summer: self.summer,
            sync: self.sync@,
            time: self.time@,
        }
    }
}

/// The body's elements, timezone, daylight saving, sync mode and clock.
pub open spec fn time_info_events(d: TimeInfoView) -> Seq<XmlEvent> {
    seq![
        XmlEvent::Empty("timezone"@, seq![("value"@, d.timezone)]),
        XmlEvent::Empty("summer"@, seq![("enable"@, bool_text(d.summer))]),
        XmlEvent::Empty("sync"@, seq![("value"@, d.sync)]),
        XmlEvent::Empty("time"@, seq![("value"@, d.time)]),
    ]
}

/// An empty clock body, which parsing starts from.
pub open spec fn time_info_default() -> TimeInfoView {
    TimeInfoView {
        timezone: Seq::empty(),
        summer: false,
        sync: Seq::empty(),
        time: Seq::empty(),
    }
}

/// What one element contributes: each of `<timezone>`, `<summer>`, `<sync>` and `<time>` sets
/// its field; any other element
/// changes nothing.
pub open spec fn time_info_step(d: TimeInfoView, e: ElementView) -> TimeInfoView {
    if e.0 == "timezone"@ {
        TimeInfoView {
            timezone: or_keep(d.timezone, attr_value(e.1, "value"@)),
            ..d
        }
    } else if e.0 == "summer"@ {
        TimeInfoView {
            summer: bool_or(d.summer, attr_value(e.1, "enable"@)),
            ..d
        }
    } else if e.0 == "sync"@ {
        TimeInfoView {
            sync: or_keep(d.sync, attr_value(e.1, "value"@)),
            ..d
        }
    } else if e.0 == "time"@ {
        TimeInfoView {
            time: or_keep(d.time, attr_value(e.1, "value"@)),
            ..d
        }
    } else {
        d
    }
}

/// The body read from a document's elements.
pub open spec fn time_info_scan(es: Seq<ElementView>) -> TimeInfoView {
    scan(time_info_default(), es, |d: TimeInfoView, e: ElementView| time_info_step(d, e))
}

impl TimeInfo {
    /// Write the body's elements.
    pub fn write_body(&self, x: &mut XmlWriter) -> (res: Result<(), ProtoError>)
        ensures
            res is Ok,
            final(x)@ == old(x)@ + render(time_info_events(self@)),
    {
        let ghost start = x@;
        let ghost evs = time_info_events(self@);
        assert(evs.take(0) =~= Seq::<XmlEvent>::empty());
        let a0 = [("value", self.timezone.as_str())];
        x.empty("timezone", &a0);
        proof {
            assert(attrs_view(a0@) =~= evs[0]->Empty_1);
            lemma_render_take(evs, 0);
            assert(x@ =~= start + render(evs.take(1)));
        }
        let a1 = [("enable", bool_str(self.summer))];
        x.empty("summer", &a1);
        proof {
            assert(attrs_view(a1@) =~= evs[1]->Empty_1);
            lemma_render_take(evs, 1);
            assert(x@ =~= start + render(evs.take(2)));
        }
        let a2 = [("value", self.sync.as_str())];
        x.empty("sync", &a2);
        proof {
            assert(attrs_view(a2@) =~= evs[2]->Empty_1);
            lemma_render_take(evs, 2);
            assert(x@ =~= start + render(evs.take(3)));
        }
        let a3 = [("value", self.time.as_str())];
        x.empty("time", &a3);
        proof {
            assert(attrs_view(a3@) =~= evs[3]->Empty_1);
            lemma_render_take(evs, 3);
            assert(x@ =~= start + render(evs.take(4)));
        }
        assert(evs.take(4) =~= evs);
        Ok(())
    }

    /// Read the body back out of a decoded envelope by scanning its elements.
    pub fn parse_body(reply: &SdkReply) -> (res: Result<TimeInfo, ProtoError>)
        ensures
            res is Ok <==> reads_all(elements_full(reply.elements@), |f: ElementFull| time_info_reads(f)),
            res matches Ok(v) ==> v@ == time_info_scan(elements_view(reply.elements@)),
            res matches Err(e) ==> e is Xml,
{
        let ghost ev = elements_view(reply.elements@);
        let ghost step = |d: TimeInfoView, e: ElementView| time_info_step(d, e);
        let mut info = TimeInfo {
            timezone: String::new(),
            summer: false,
            sync: String::new(),
            time: String::new(),
        };
        let n = reply.elements.len();
        let mut i: usize = 0;
        assert(ev.take(0) =~= Seq::<ElementView>::empty());
        while i < n
            invariant
                n == reply.elements@.len(),
                i <= n,
                ev == elements_view(reply.elements@),
                step == (|d: TimeInfoView, e: ElementView| time_info_step(d, e)),
                info@ == scan(time_info_default(), ev.take(i as int), step),
                forall|k: int| 0 <= k < i ==> time_info_reads(#[trigger] elements_full(reply.elements@)[k]),
            decreases n - i,
        {
            let e = &reply.elements[i];
            proof {
                lemma_scan_take(time_info_default(), ev, i as int, step);
                assert(ev[i as int] == e@);
            }
            if is_named(e, "timezone") {
                match attr(e, "value") {
                    Err(err) => {
                        proof {
                            assert(!time_info_reads(elements_full(reply.elements@)[i as int]));
                            lemma_reads_all_fails(elements_full(reply.elements@), |f: ElementFull| time_info_reads(f), i as int);
                        }
                        return Err(err);
                    },
                    Ok(None) => {},
                    Ok(Some(v)) => {
                    info.timezone = v;
                },
                }
            } else if is_named(e, "summer") {
                match attr(e, "enable") {
                    Err(err) => {
                        proof {
                            assert(!time_info_reads(elements_full(reply.elements@)[i as int]));
                            lemma_reads_all_fails(elements_full(reply.elements@), |f: ElementFull| time_info_reads(f), i as int);
                        }
                        return Err(err);
                    },
                    Ok(None) => {},
                    Ok(Some(v)) => {
                    info.summer = parse_bool(v.as_str());
                },
                }
            } else if is_named(e, "sync") {
                match attr(e, "value") {
                    Err(err) => {
                        proof {
                            assert(!time_info_reads(elements_full(reply.elements@)[i as int]));
                            lemma_reads_all_fails(elements_full(reply.elements@), |f: ElementFull| time_info_reads(f), i as int);
                        }
                        return Err(err);
                    },
                    Ok(None) => {},
                    Ok(Some(v)) => {
                    info.sync = v;
                },
                }
            } else if is_named(e, "time") {
                match attr(e, "value") {
                    Err(err) => {
                        proof {
                            assert(!time_info_reads(elements_full(reply.elements@)[i as int]));
                            lemma_reads_all_fails(elements_full(reply.elements@), |f: ElementFull| time_info_reads(f), i as int);
                        }
                        return Err(err);
                    },
                    Ok(None) => {},
                    Ok(Some(v)) => {
                    info.time = v;
                },
                }
            }
            assert(time_info_reads(elements_full(reply.elements@)[i as int]));
            i = i + 1;
        }
        assert(ev.take(n as int) =~= ev);
        Ok(info)
    }

    /// Encode as a `SetTimeInfo` request document.
    pub fn encode_request(&self, guid: &str) -> (res: Result<Vec<u8>, ProtoError>)
        ensures
            res matches Ok(b) && b@ == request_bytes(guid@, SdkMethod::SetTimeInfo, time_info_events(self@)),
    {
        let mut x = XmlWriter::new();
        let _ = self.write_body(&mut x);
        let body = x.into_string();
        proof {
            lemma_envelope_render(guid@, "in"@, SdkMethod::SetTimeInfo, None, time_info_events(self@));
        }
        encode_request(guid, SdkMethod::SetTimeInfo, body.as_str())
    }

    /// Encode as a `SetTimeInfo` reply document.
    pub fn encode_reply(&self, guid: &str, result: &SdkResult) -> (res: Result<Vec<u8>, ProtoError>)
        ensures
            res matches Ok(b) && b@ == reply_bytes(guid@, SdkMethod::SetTimeInfo, result@, time_info_events(self@)),
    {
        let mut x = XmlWriter::new();
        let _ = self.write_body(&mut x);
        let body = x.into_string();
        proof {
            lemma_envelope_render(guid@, "out"@, SdkMethod::SetTimeInfo, Some(result@), time_info_events(self@));
        }
        encode_reply(guid, SdkMethod::SetTimeInfo, result, body.as_str())
    }

    /// Decode a document into the body, first surfacing any device error.
    /// The bytes of a successful reply carrying a body decode to that body.
    pub fn decode(bytes: &[u8]) -> (res: Result<TimeInfo, ProtoError>)
        ensures
            decodes_to(bytes@, res, |f: ElementFull| time_info_reads(f), |v: TimeInfo, es: Seq<ElementView>| v@ == time_info_scan(es)),
            forall|g: Seq<char>, m: SdkMethod, d: TimeInfoView| #[trigger] reply_bytes(g, m, success_code(), time_info_events(d))
                == bytes@ ==> (res matches Ok(v) && v@ == d),
    {
        let reply = match decode_checked(bytes) {
            Ok(r) => r,
            Err(e) => {
                proof {
                    assert forall|g: Seq<char>, m: SdkMethod, d: TimeInfoView| #[trigger] reply_bytes(g, m, success_code(), time_info_events(d))
                        != bytes@ by {
                        if reply_bytes(g, m, success_code(), time_info_events(d)) == bytes@ {
                            lemma_time_wf(d);
                            lemma_envelope_reads_back(bytes@, g, "out"@, m, Some(success_code()), time_info_events(d));
                        }
                    }
                }
                return Err(e);
            },
        };
        let res = Self::parse_body(&reply);
        proof {
            lemma_elements_view_full(reply.elements@);
            assert forall|g: Seq<char>, m: SdkMethod, d: TimeInfoView| #[trigger] reply_bytes(g, m, success_code(), time_info_events(d))
                == bytes@ implies (res matches Ok(v) && v@ == d) by {
                lemma_time_wf(d);
                lemma_envelope_reads_back(bytes@, g, "out"@, m, Some(success_code()), time_info_events(d));
                reveal_strlit("out");
                lemma_time_info_roundtrip(g, "out"@, m, Some(success_code()), d);
            }
        }
        res
    }
}

/// Reading back the elements of a written body, in any request or reply
/// envelope, gives the body that was written.
pub proof fn lemma_time_info_roundtrip(
    guid: Seq<char>,
    tag: Seq<char>,
    method: SdkMethod,
    result: Option<Seq<char>>,
    d: TimeInfoView,
)
    requires
        tag == "in"@ || tag == "out"@,
    ensures
        time_info_scan(elements_of(envelope_events(guid, tag, method, result, time_info_events(d)))) == d,
{
    reveal_strlit("enable");
    reveal_strlit("guid");
    reveal_strlit("in");
    reveal_strlit("out");
    reveal_strlit("sdk");
    reveal_strlit("summer");
    reveal_strlit("sync");
    reveal_strlit("time");
    reveal_strlit("timezone");
    reveal_strlit("value");
    let step = |d: TimeInfoView, e: ElementView| time_info_step(d, e);
    let body = time_info_events(d);
    let init = time_info_default();
    let h0: ElementView = ("sdk"@, seq![("guid"@, guid)]);
    let h1: ElementView = (tag, crate::sdk::envelope::method_attrs(method, result));
    lemma_envelope_elements(guid, tag, method, result, body);
    lemma_scan_append(init, seq![h0, h1], elements_of(body), step);
    lemma_scan_push(init, Seq::empty(), h0, step);
    lemma_scan_push(init, seq![h0], h1, step);
    assert(Seq::<ElementView>::empty().push(h0) =~= seq![h0]);
    assert(seq![h0].push(h1) =~= seq![h0, h1]);
    assert(scan(init, Seq::<ElementView>::empty(), step) == init);
    assert("sdk"@.len() == 3 && "timezone"@.len() == 8);
    assert("in"@.len() == 2 && "timezone"@.len() == 8);
    assert("out"@.len() == 3 && "timezone"@.len() == 8);
    assert("sdk"@.len() == 3 && "summer"@.len() == 6);
    assert("in"@.len() == 2 && "summer"@.len() == 6);
    assert("out"@.len() == 3 && "summer"@.len() == 6);
    assert("sdk"@.len() == 3 && "sync"@.len() == 4);
    assert("in"@.len() == 2 && "sync"@.len() == 4);
    assert("out"@.len() == 3 && "sync"@.len() == 4);
    assert("sdk"@.len() == 3 && "time"@.len() == 4);
    assert("in"@.len() == 2 && "time"@.len() == 4);
    assert("out"@.len() == 3 && "time"@.len() == 4);
    assert(time_info_step(init, h0) == init);
    assert(time_info_step(init, h1) == init);
    assert(scan(init, seq![h0, h1], step) == init);
    assert(crate::sdk::xml::plain("value"@));
    lemma_attr_lookup(body[0]->Empty_1, 0);
    assert(crate::sdk::xml::plain("enable"@));
    lemma_attr_lookup(body[1]->Empty_1, 0);
    assert(crate::sdk::xml::plain("value"@));
    lemma_attr_lookup(body[2]->Empty_1, 0);
    assert(crate::sdk::xml::plain("value"@));
    lemma_attr_lookup(body[3]->Empty_1, 0);
    crate::sdk::messages::lemma_bool_text(d.summer);
    lemma_elements_push(Seq::<XmlEvent>::empty(), body[0]);
    assert(Seq::<XmlEvent>::empty().push(body[0]) =~= seq![body[0]]);
    lemma_elements_push(seq![body[0]], body[1]);
    assert(seq![body[0]].push(body[1]) =~= seq![body[0], body[1]]);
    lemma_elements_push(seq![body[0], body[1]], body[2]);
    assert(seq![body[0], body[1]].push(body[2]) =~= seq![body[0], body[1], body[2]]);
    lemma_elements_push(seq![body[0], body[1], body[2]], body[3]);
    assert(seq![body[0], body[1], body[2]].push(body[3]) =~= seq![body[0], body[1], body[2], body[3]]);
    assert(seq![body[0], body[1], body[2], body[3]] =~= body);
    assert(elements_of(Seq::<XmlEvent>::empty()) =~= Seq::<ElementView>::empty());
    let e0: ElementView = ("timezone"@, body[0]->Empty_1);
    let e1: ElementView = ("summer"@, body[1]->Empty_1);
    let e2: ElementView = ("sync"@, body[2]->Empty_1);
    let e3: ElementView = ("time"@, body[3]->Empty_1);
    assert(elements_of(body) =~= seq![e0, e1, e2, e3]);
    assert("timezone"@.len() == 8 && "summer"@.len() == 6);
    assert("timezone"@.len() == 8 && "sync"@.len() == 4);
    assert("timezone"@.len() == 8 && "time"@.len() == 4);
    assert("summer"@.len() == 6 && "timezone"@.len() == 8);
    assert("summer"@.len() == 6 && "sync"@.len() == 4);
    assert("summer"@.len() == 6 && "time"@.len() == 4);
    assert("sync"@.len() == 4 && "timezone"@.len() == 8);
    assert("sync"@.len() == 4 && "summer"@.len() == 6);
    assert("sync"@[0] != "time"@[0]);
    assert("time"@.len() == 4 && "timezone"@.len() == 8);
    assert("time"@.len() == 4 && "summer"@.len() == 6);
    assert("time"@[0] != "sync"@[0]);
    lemma_scan_push(init, Seq::<ElementView>::empty(), e0, step);
    assert(Seq::<ElementView>::empty().push(e0) =~= seq![e0]);
    lemma_scan_push(init, seq![e0], e1, step);
    assert(seq![e0].push(e1) =~= seq![e0, e1]);
    lemma_scan_push(init, seq![e0, e1], e2, step);
    assert(seq![e0, e1].push(e2) =~= seq![e0, e1, e2]);
    lemma_scan_push(init, seq![e0, e1, e2], e3, step);
    assert(seq![e0, e1, e2].push(e3) =~= seq![e0, e1, e2, e3]);
    assert(scan(init, seq![e0, e1, e2, e3], step) =~= d);
}


/// The body is well formed, and none of its elements is named like the
/// envelope's.
pub proof fn lemma_time_wf(d: TimeInfoView)
    ensures
        events_wf(time_info_events(d)),
        forall|k: int| 0 <= k < elements_of(time_info_events(d)).len() ==> !envelope_name(
            #[trigger] elements_of(time_info_events(d))[k].0,
        ),
{
    reveal_strlit("enable");
    reveal_strlit("in");
    reveal_strlit("out");
    reveal_strlit("sdk");
    reveal_strlit("summer");
    reveal_strlit("sync");
    reveal_strlit("time");
    reveal_strlit("timezone");
    reveal_strlit("value");
    let body = time_info_events(d);
    assert forall|k: int| 0 <= k < body.len() implies (#[trigger] body[k] is Empty || body[k] is Text) by {}
    lemma_open_after_flat(Seq::empty(), body);
    assert(name_ok("enable"@) && name_ok("summer"@) && name_ok("sync"@) && name_ok("time"@) && name_ok("timezone"@) && name_ok("value"@));

    assert forall|k: int| 0 <= k < body.len() implies event_ok(#[trigger] body[k]) by {
        if k == 0 { assert(keys_ok(body[0]->Empty_1)); }
        if k == 1 { assert(keys_ok(body[1]->Empty_1)); }
        if k == 2 { assert(keys_ok(body[2]->Empty_1)); }
        if k == 3 { assert(keys_ok(body[3]->Empty_1)); }
    }
    lemma_elements_push(Seq::empty(), body[0]);
    assert(Seq::<XmlEvent>::empty().push(body[0]) =~= seq![body[0]]);
    lemma_elements_push(seq![body[0]], body[1]);
    assert(seq![body[0]].push(body[1]) =~= seq![body[0], body[1]]);
    lemma_elements_push(seq![body[0], body[1]], body[2]);
    assert(seq![body[0], body[1]].push(body[2]) =~= seq![body[0], body[1], body[2]]);
    lemma_elements_push(seq![body[0], body[1], body[2]], body[3]);
    assert(seq![body[0], body[1], body[2]].push(body[3]) =~= body);
    assert(elements_of(Seq::<XmlEvent>::empty()) =~= Seq::<ElementView>::empty());
    let els = elements_of(body);
    assert(els.len() == 4);
    assert(els[0].0 == "timezone"@ && els[1].0 == "summer"@ && els[2].0 == "sync"@ && els[3].0 == "time"@);
}

/// The lookups reading the body makes on one element all succeed.
pub open spec fn time_info_reads(f: ElementFull) -> bool {
    if f.0 == "timezone"@ {
        readable(f, "value"@)
    } else if f.0 == "summer"@ {
        readable(f, "enable"@)
    } else if f.0 == "sync"@ {
        readable(f, "value"@)
    } else if f.0 == "time"@ {
        readable(f, "value"@)
    } else {
        true
    }
}

} // verus!
