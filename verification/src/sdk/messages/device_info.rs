//! `GetDeviceInfo`: hardware and firmware identity, screen geometry.

use vstd::prelude::*;
use crate::sdk::xml::{cooked, elements_full, lemma_elements_view_full, lemma_reads_all_fails, readable, reads_all, ElementFull};
use crate::error::ProtoError;
use crate::fmt::{dec, parse_int_or, u64_to_string};
use crate::sdk::envelope::{encode_reply, encode_request, envelope_events, lemma_envelope_elements,
    lemma_envelope_render, reply_bytes, request_bytes, SdkReply};
use crate::sdk::messages::{decode_checked, decodes_to, lemma_int_or_dec, num_or, or_keep};
use crate::sdk::envelope::{envelope_name, lemma_envelope_reads_back};
use crate::sdk::xml::{events_wf, event_ok, keys_ok, lemma_open_after_flat, name_ok};
use crate::sdk::method::SdkMethod;
use crate::sdk::result::{success_code, SdkResult};
use crate::sdk::xml::{attr, attr_value, attrs_view, elements_of, elements_view, is_named,
    lemma_attr_lookup, lemma_elements_push, lemma_render_push, lemma_scan_append, lemma_scan_push,
    lemma_scan_take, plain, render, scan, ElementView, XmlEvent, XmlWriter};

verus! {

/// Body-less `GetDeviceInfo` request.
#[derive(Debug, Clone, Copy, PartialEq, Eq, Default)]
pub struct GetDeviceInfo;

impl GetDeviceInfo {
    /// Encode as a request document.
    pub fn encode_request(&self, guid: &str) -> (res: Result<Vec<u8>, ProtoError>)
        ensures
            res matches Ok(b) && b@ == request_bytes(guid@, SdkMethod::GetDeviceInfo, Seq::empty()),
    {
        proof {
            reveal_strlit("");
            lemma_envelope_render(guid@, "in"@, SdkMethod::GetDeviceInfo, None, Seq::empty());
        }
        encode_request(guid, SdkMethod::GetDeviceInfo, "")
    }

    /// Decode a document, surfacing any device error.
    pub fn decode(bytes: &[u8]) -> (res: Result<GetDeviceInfo, ProtoError>)
        ensures
            decodes_to(bytes@, res, |f: ElementFull| true, |v: GetDeviceInfo, es: Seq<ElementView>| true),
    {
        match decode_checked(bytes) {
            Ok(_) => Ok(GetDeviceInfo),
            Err(e) => Err(e),
        }
    }
}

/// The `<device>`, `<version>` and `<screen>` reply to `GetDeviceInfo`.
#[derive(Debug, Clone, PartialEq, Eq)]
pub struct DeviceInfo {
    pub cpu: String,
    pub model: String,
    pub device_id: String,
    pub device_name: String,
    pub fpga_version: String,
    pub app_version: String,
    pub kernel_version: String,
    pub screen_width: u32,
    pub screen_height: u32,
    pub screen_rotation: u32,
}

/// A [`DeviceInfo`] as plain values.
pub struct DeviceInfoView {
    pub cpu: Seq<char>,
    pub model: Seq<char>,
    pub device_id: Seq<char>,
    pub device_name: Seq<char>,
    pub fpga_version: Seq<char>,
    pub app_version: Seq<char>,
    pub kernel_version: Seq<char>,
    pub screen_width: u32,
    pub screen_height: u32,
    pub screen_rotation: u32,
}

impl View for DeviceInfo {
    type V = DeviceInfoView;

    open spec fn view(&self) -> DeviceInfoView {
        DeviceInfoView {
            cpu: self.cpu@,
            model: self.model@,
            device_id: self.device_id@,
            device_name: self.device_name@,
            fpga_version: self.fpga_version@,
            app_version: self.app_version@,
            kernel_version: self.kernel_version@,
            screen_width: self.screen_width,
            screen_height: self.screen_height,
            screen_rotation: self.screen_rotation,
        }
    }
}

/// The body's elements: identity, versions, then geometry in decimal.
pub open spec fn device_info_events(d: DeviceInfoView) -> Seq<XmlEvent> {
    seq![
        XmlEvent::Empty("device"@, seq![("cpu"@, d.cpu), ("model"@, d.model), ("id"@, d.device_id), ("name"@, d.device_name)]),
        XmlEvent::Empty("version"@, seq![("fpga"@, d.fpga_version), ("app"@, d.app_version), ("kernel"@, d.kernel_version)]),
        XmlEvent::Empty("screen"@, seq![
            ("width"@, dec(d.screen_width as nat)),
            ("height"@, dec(d.screen_height as nat)),
            ("rotation"@, dec(d.screen_rotation as nat)),
        ]),
    ]
}

/// An info with every field empty or zero, which parsing starts from.
pub open spec fn device_info_default() -> DeviceInfoView {
    DeviceInfoView {
        cpu: Seq::empty(),
        model: Seq::empty(),
        device_id: Seq::empty(),
        device_name: Seq::empty(),
        fpga_version: Seq::empty(),
        app_version: Seq::empty(),
        kernel_version: Seq::empty(),
        screen_width: 0,
        screen_height: 0,
        screen_rotation: 0,
    }
}

impl Default for DeviceInfo {
    /// An info with every field empty or zero.
    fn default() -> (d: DeviceInfo)
        ensures
            d@ == device_info_default(),
    {
        DeviceInfo {
            cpu: String::new(),
            model: String::new(),
            device_id: String::new(),
            device_name: String::new(),
            fpga_version: String::new(),
            app_version: String::new(),
            kernel_version: String::new(),
            screen_width: 0,
            screen_height: 0,
            screen_rotation: 0,
        }
    }
}

/// What one element contributes: `<device>`, `<version>` and `<screen>` set
/// the attributes they carry; a number that does not parse reads as 0; any
/// other element changes nothing.
pub open spec fn device_info_step(d: DeviceInfoView, e: ElementView) -> DeviceInfoView {
    if e.0 == "device"@ {
        DeviceInfoView {
            cpu: or_keep(d.cpu, attr_value(e.1, "cpu"@)),
            model: or_keep(d.model, attr_value(e.1, "model"@)),
            device_id: or_keep(d.device_id, attr_value(e.1, "id"@)),
            device_name: or_keep(d.device_name, attr_value(e.1, "name"@)),
            ..d
        }
    } else if e.0 == "version"@ {
        DeviceInfoView {
            fpga_version: or_keep(d.fpga_version, attr_value(e.1, "fpga"@)),
            app_version: or_keep(d.app_version, attr_value(e.1, "app"@)),
            kernel_version: or_keep(d.kernel_version, attr_value(e.1, "kernel"@)),
            ..d
        }
    } else if e.0 == "screen"@ {
        DeviceInfoView {
            screen_width: num_or(d.screen_width as int, attr_value(e.1, "width"@), 0, u32::MAX as int) as u32,
            screen_height: num_or(d.screen_height as int, attr_value(e.1, "height"@), 0, u32::MAX as int) as u32,
            screen_rotation: num_or(d.screen_rotation as int, attr_value(e.1, "rotation"@), 0, u32::MAX as int) as u32,
            ..d
        }
    } else {
        d
    }
}

/// The info read from a document's elements.
pub open spec fn device_info_scan(es: Seq<ElementView>) -> DeviceInfoView {
    scan(device_info_default(), es, |d: DeviceInfoView, e: ElementView| device_info_step(d, e))
}

impl DeviceInfo {
    /// Write the body's elements.
    pub fn write_body(&self, x: &mut XmlWriter) -> (res: Result<(), ProtoError>)
        ensures
            res is Ok,
            final(x)@ == old(x)@ + render(device_info_events(self@)),
    {
        let ghost start = x@;
        let device = [
            ("cpu", self.cpu.as_str()),
            ("model", self.model.as_str()),
            ("id", self.device_id.as_str()),
            ("name", self.device_name.as_str()),
        ];
        x.empty("device", &device);
        let version = [
            ("fpga", self.fpga_version.as_str()),
            ("app", self.app_version.as_str()),
            ("kernel", self.kernel_version.as_str()),
        ];
        x.empty("version", &version);
        let w = u64_to_string(self.screen_width as u64);
        let h = u64_to_string(self.screen_height as u64);
        let r = u64_to_string(self.screen_rotation as u64);
        let screen = [("width", w.as_str()), ("height", h.as_str()), ("rotation", r.as_str())];
        x.empty("screen", &screen);
        proof {
            let evs = device_info_events(self@);
            assert(attrs_view(device@) =~= evs[0]->Empty_1);
            assert(attrs_view(version@) =~= evs[1]->Empty_1);
            assert(attrs_view(screen@) =~= evs[2]->Empty_1);
            lemma_render_push(Seq::empty(), evs[0]);
            lemma_render_push(seq![evs[0]], evs[1]);
            lemma_render_push(seq![evs[0], evs[1]], evs[2]);
            assert(Seq::<XmlEvent>::empty().push(evs[0]) =~= seq![evs[0]]);
            assert(seq![evs[0]].push(evs[1]) =~= seq![evs[0], evs[1]]);
            assert(seq![evs[0], evs[1]].push(evs[2]) =~= evs);
            assert(render(Seq::<XmlEvent>::empty()) =~= Seq::<char>::empty());
            assert(x@ =~= start + render(evs));
        }
        Ok(())
    }

    /// Read the info back out of a decoded envelope by scanning its elements.
    pub fn parse_body(reply: &SdkReply) -> (res: Result<DeviceInfo, ProtoError>)
        ensures
            res is Ok <==> reads_all(elements_full(reply.elements@), |f: ElementFull| device_info_reads(f)),
            res matches Ok(v) ==> v@ == device_info_scan(elements_view(reply.elements@)),
            res matches Err(e) ==> e is Xml,
{
        let ghost ev = elements_view(reply.elements@);
        let ghost step = |d: DeviceInfoView, e: ElementView| device_info_step(d, e);
        let mut info = DeviceInfo {
            cpu: String::new(),
            model: String::new(),
            device_id: String::new(),
            device_name: String::new(),
            fpga_version: String::new(),
            app_version: String::new(),
            kernel_version: String::new(),
            screen_width: 0,
            screen_height: 0,
            screen_rotation: 0,
        };
        let n = reply.elements.len();
        let mut i: usize = 0;
        assert(ev.take(0) =~= Seq::<ElementView>::empty());
        while i < n
            invariant
                n == reply.elements@.len(),
                i <= n,
                ev == elements_view(reply.elements@),
                step == (|d: DeviceInfoView, e: ElementView| device_info_step(d, e)),
                info@ == scan(device_info_default(), ev.take(i as int), step),
                forall|k: int| 0 <= k < i ==> device_info_reads(#[trigger] elements_full(reply.elements@)[k]),
            decreases n - i,
        {
            let e = &reply.elements[i];
            proof {
                lemma_scan_take(device_info_default(), ev, i as int, step);
                assert(ev[i as int] == e@);
            }
            if is_named(e, "device") {
                match attr(e, "cpu") {
                    Err(err) => {
                        proof {
                            assert(!device_info_reads(elements_full(reply.elements@)[i as int]));
                            lemma_reads_all_fails(elements_full(reply.elements@), |f: ElementFull| device_info_reads(f), i as int);
                        }
                        return Err(err);
                    },
                    Ok(None) => {},
                    Ok(Some(v)) => {
                    info.cpu = v;
                },
                }
                match attr(e, "model") {
                    Err(err) => {
                        proof {
                            assert(!device_info_reads(elements_full(reply.elements@)[i as int]));
                            lemma_reads_all_fails(elements_full(reply.elements@), |f: ElementFull| device_info_reads(f), i as int);
                        }
                        return Err(err);
                    },
                    Ok(None) => {},
                    Ok(Some(v)) => {
                    info.model = v;
                },
                }
                match attr(e, "id") {
                    Err(err) => {
                        proof {
                            assert(!device_info_reads(elements_full(reply.elements@)[i as int]));
                            lemma_reads_all_fails(elements_full(reply.elements@), |f: ElementFull| device_info_reads(f), i as int);
                        }
                        return Err(err);
                    },
                    Ok(None) => {},
                    Ok(Some(v)) => {
                    info.device_id = v;
                },
                }
                match attr(e, "name") {
                    Err(err) => {
                        proof {
                            assert(!device_info_reads(elements_full(reply.elements@)[i as int]));
                            lemma_reads_all_fails(elements_full(reply.elements@), |f: ElementFull| device_info_reads(f), i as int);
                        }
                        return Err(err);
                    },
                    Ok(None) => {},
                    Ok(Some(v)) => {
                    info.device_name = v;
                },
                }
            } else if is_named(e, "version") {
                match attr(e, "fpga") {
                    Err(err) => {
                        proof {
                            assert(!device_info_reads(elements_full(reply.elements@)[i as int]));
                            lemma_reads_all_fails(elements_full(reply.elements@), |f: ElementFull| device_info_reads(f), i as int);
                        }
                        return Err(err);
                    },
                    Ok(None) => {},
                    Ok(Some(v)) => {
                    info.fpga_version = v;
                },
                }
                match attr(e, "app") {
                    Err(err) => {
                        proof {
                            assert(!device_info_reads(elements_full(reply.elements@)[i as int]));
                            lemma_reads_all_fails(elements_full(reply.elements@), |f: ElementFull| device_info_reads(f), i as int);
                        }
                        return Err(err);
                    },
                    Ok(None) => {},
                    Ok(Some(v)) => {
                    info.app_version = v;
                },
                }
                match attr(e, "kernel") {
                    Err(err) => {
                        proof {
                            assert(!device_info_reads(elements_full(reply.elements@)[i as int]));
                            lemma_reads_all_fails(elements_full(reply.elements@), |f: ElementFull| device_info_reads(f), i as int);
                        }
                        return Err(err);
                    },
                    Ok(None) => {},
                    Ok(Some(v)) => {
                    info.kernel_version = v;
                },
                }
            } else if is_named(e, "screen") {
                match attr(e, "width") {
                    Err(err) => {
                        proof {
                            assert(!device_info_reads(elements_full(reply.elements@)[i as int]));
                            lemma_reads_all_fails(elements_full(reply.elements@), |f: ElementFull| device_info_reads(f), i as int);
                        }
                        return Err(err);
                    },
                    Ok(None) => {},
                    Ok(Some(v)) => {
                    info.screen_width = parse_int_or(v.as_str(), 0, 0xffff_ffff) as u32;
                },
                }
                match attr(e, "height") {
                    Err(err) => {
                        proof {
                            assert(!device_info_reads(elements_full(reply.elements@)[i as int]));
                            lemma_reads_all_fails(elements_full(reply.elements@), |f: ElementFull| device_info_reads(f), i as int);
                        }
                        return Err(err);
                    },
                    Ok(None) => {},
                    Ok(Some(v)) => {
                    info.screen_height = parse_int_or(v.as_str(), 0, 0xffff_ffff) as u32;
                },
                }
                match attr(e, "rotation") {
                    Err(err) => {
                        proof {
                            assert(!device_info_reads(elements_full(reply.elements@)[i as int]));
                            lemma_reads_all_fails(elements_full(reply.elements@), |f: ElementFull| device_info_reads(f), i as int);
                        }
                        return Err(err);
                    },
                    Ok(None) => {},
                    Ok(Some(v)) => {
                    info.screen_rotation = parse_int_or(v.as_str(), 0, 0xffff_ffff) as u32;
                },
                }
            }
            assert(device_info_reads(elements_full(reply.elements@)[i as int]));
            i = i + 1;
        }
        assert(ev.take(n as int) =~= ev);
        Ok(info)
    }

    /// Encode as a `GetDeviceInfo` request document.
    pub fn encode_request(&self, guid: &str) -> (res: Result<Vec<u8>, ProtoError>)
        ensures
            res matches Ok(b) && b@ == request_bytes(guid@, SdkMethod::GetDeviceInfo, device_info_events(self@)),
    {
        let mut x = XmlWriter::new();
        let _ = self.write_body(&mut x);
        let body = x.into_string();
        proof {
            lemma_envelope_render(guid@, "in"@, SdkMethod::GetDeviceInfo, None, device_info_events(self@));
        }
        encode_request(guid, SdkMethod::GetDeviceInfo, body.as_str())
    }

    /// Encode as a `GetDeviceInfo` reply document, as a device sends it.
    pub fn encode_reply(&self, guid: &str, result: &SdkResult) -> (res: Result<Vec<u8>, ProtoError>)
        ensures
            res matches Ok(b) && b@ == reply_bytes(guid@, SdkMethod::GetDeviceInfo, result@, device_info_events(self@)),
    {
        let mut x = XmlWriter::new();
        let _ = self.write_body(&mut x);
        let body = x.into_string();
        proof {
            lemma_envelope_render(guid@, "out"@, SdkMethod::GetDeviceInfo, Some(result@), device_info_events(self@));
        }
        encode_reply(guid, SdkMethod::GetDeviceInfo, result, body.as_str())
    }

    /// Decode a document into the info, first surfacing any device error.
    /// The bytes of a successful reply carrying an info decode to that info.
    pub fn decode(bytes: &[u8]) -> (res: Result<DeviceInfo, ProtoError>)
        ensures
            decodes_to(bytes@, res, |f: ElementFull| device_info_reads(f), |v: DeviceInfo, es: Seq<ElementView>| v@ == device_info_scan(es)),
            forall|g: Seq<char>, d: DeviceInfoView| #[trigger] reply_bytes(g, SdkMethod::GetDeviceInfo, success_code(), device_info_events(d))
                == bytes@ ==> (res matches Ok(v) && v@ == d),
    {
        let reply = match decode_checked(bytes) {
            Ok(r) => r,
            Err(e) => {
                proof {
                    assert forall|g: Seq<char>, d: DeviceInfoView| #[trigger] reply_bytes(g, SdkMethod::GetDeviceInfo, success_code(), device_info_events(d))
                        != bytes@ by {
                        if reply_bytes(g, SdkMethod::GetDeviceInfo, success_code(), device_info_events(d)) == bytes@ {
                            lemma_device_info_wf(d);
                            lemma_envelope_reads_back(bytes@, g, "out"@, SdkMethod::GetDeviceInfo, Some(success_code()), device_info_events(d));
                        }
                    }
                }
                return Err(e);
            },
        };
        let res = Self::parse_body(&reply);
        proof {
            lemma_elements_view_full(reply.elements@);
            assert forall|g: Seq<char>, d: DeviceInfoView| #[trigger] reply_bytes(g, SdkMethod::GetDeviceInfo, success_code(), device_info_events(d))
                == bytes@ implies (res matches Ok(v) && v@ == d) by {
                lemma_device_info_wf(d);
                lemma_envelope_reads_back(bytes@, g, "out"@, SdkMethod::GetDeviceInfo, Some(success_code()), device_info_events(d));
                reveal_strlit("out");
                lemma_device_info_roundtrip(g, "out"@, SdkMethod::GetDeviceInfo, Some(success_code()), d);
            }
        }
        res
    }
}

/// Reading back the elements of a written info body, in any request or reply
/// envelope, gives the info that was written.
pub proof fn lemma_device_info_roundtrip(
    guid: Seq<char>,
    tag: Seq<char>,
    method: SdkMethod,
    result: Option<Seq<char>>,
    d: DeviceInfoView,
)
    requires
        tag == "in"@ || tag == "out"@,
    ensures
        device_info_scan(elements_of(envelope_events(guid, tag, method, result, device_info_events(d)))) == d,
{
    reveal_strlit("sdk");
    reveal_strlit("in");
    reveal_strlit("out");
    reveal_strlit("device");
    reveal_strlit("version");
    reveal_strlit("screen");
    reveal_strlit("cpu");
    reveal_strlit("model");
    reveal_strlit("id");
    reveal_strlit("name");
    reveal_strlit("fpga");
    reveal_strlit("app");
    reveal_strlit("kernel");
    reveal_strlit("width");
    reveal_strlit("height");
    reveal_strlit("rotation");
    let step = |d: DeviceInfoView, e: ElementView| device_info_step(d, e);
    let body = device_info_events(d);
    let init = device_info_default();
    let h0: ElementView = ("sdk"@, seq![("guid"@, guid)]);
    let h1: ElementView = (tag, crate::sdk::envelope::method_attrs(method, result));
    lemma_envelope_elements(guid, tag, method, result, body);
    lemma_scan_append(init, seq![h0, h1], elements_of(body), step);
    lemma_scan_push(init, Seq::empty(), h0, step);
    lemma_scan_push(init, seq![h0], h1, step);
    assert(Seq::<ElementView>::empty().push(h0) =~= seq![h0]);
    assert(seq![h0].push(h1) =~= seq![h0, h1]);
    assert(scan(init, Seq::<ElementView>::empty(), step) == init);
    assert("sdk"@.len() == 3 && "in"@.len() == 2 && "out"@.len() == 3);
    assert("device"@.len() == 6 && "version"@.len() == 7 && "screen"@.len() == 6);
    assert(h0.0 != "device"@ && h0.0 != "version"@ && h0.0 != "screen"@);
    assert(h1.0 != "device"@ && h1.0 != "version"@ && h1.0 != "screen"@);
    assert(device_info_step(init, h0) == init);
    assert(device_info_step(init, h1) == init);
    assert(scan(init, seq![h0, h1], step) == init);
    let a0 = body[0]->Empty_1;
    let a1 = body[1]->Empty_1;
    let a2 = body[2]->Empty_1;
    assert(plain("cpu"@) && plain("model"@) && plain("id"@) && plain("name"@));
    assert(plain("fpga"@) && plain("app"@) && plain("kernel"@));
    assert(plain("width"@) && plain("height"@) && plain("rotation"@));
    assert("name"@[0] != "cpu"@[0]);
    assert("name"@[0] != "model"@[0]);
    assert("app"@[0] != "fpga"@[0] && "kernel"@[0] != "fpga"@[0] && "kernel"@[0] != "app"@[0]);
    assert("height"@[0] != "width"@[0] && "rotation"@[0] != "width"@[0] && "rotation"@[0] != "height"@[0]);
    assert(a1[0].0 == "fpga"@ && a1[1].0 == "app"@ && a1[2].0 == "kernel"@);
    assert(a2[0].0 == "width"@ && a2[1].0 == "height"@ && a2[2].0 == "rotation"@);
    lemma_attr_lookup(a0, 0);
    lemma_attr_lookup(a0, 1);
    lemma_attr_lookup(a0, 2);
    lemma_attr_lookup(a0, 3);
    lemma_attr_lookup(a1, 0);
    lemma_attr_lookup(a1, 1);
    lemma_attr_lookup(a1, 2);
    lemma_attr_lookup(a2, 0);
    lemma_attr_lookup(a2, 1);
    lemma_attr_lookup(a2, 2);
    lemma_int_or_dec(d.screen_width as nat, 0, u32::MAX as int);
    lemma_int_or_dec(d.screen_height as nat, 0, u32::MAX as int);
    lemma_int_or_dec(d.screen_rotation as nat, 0, u32::MAX as int);
    let e0: ElementView = ("device"@, a0);
    let e1: ElementView = ("version"@, a1);
    let e2: ElementView = ("screen"@, a2);
    lemma_elements_push(Seq::empty(), body[0]);
    lemma_elements_push(seq![body[0]], body[1]);
    lemma_elements_push(seq![body[0], body[1]], body[2]);
    assert(Seq::<XmlEvent>::empty().push(body[0]) =~= seq![body[0]]);
    assert(seq![body[0]].push(body[1]) =~= seq![body[0], body[1]]);
    assert(seq![body[0], body[1]].push(body[2]) =~= body);
    assert(elements_of(Seq::<XmlEvent>::empty()) =~= Seq::<ElementView>::empty());
    assert(elements_of(body) =~= seq![e0, e1, e2]);
    assert("device"@[0] != "version"@[0]);
    assert("device"@[0] != "screen"@[0]);
    assert("version"@ != "screen"@);
    lemma_scan_push(init, Seq::empty(), e0, step);
    lemma_scan_push(init, seq![e0], e1, step);
    lemma_scan_push(init, seq![e0, e1], e2, step);
    assert(Seq::<ElementView>::empty().push(e0) =~= seq![e0]);
    assert(seq![e0].push(e1) =~= seq![e0, e1]);
    assert(seq![e0, e1].push(e2) =~= seq![e0, e1, e2]);
    assert(scan(init, seq![e0, e1, e2], step) =~= d);
}


/// The info body is well formed, and none of its elements is named like the
/// envelope's.
pub proof fn lemma_device_info_wf(d: DeviceInfoView)
    ensures
        events_wf(device_info_events(d)),
        forall|k: int| 0 <= k < elements_of(device_info_events(d)).len() ==> !envelope_name(
            #[trigger] elements_of(device_info_events(d))[k].0,
        ),
{
    reveal_strlit("sdk");
    reveal_strlit("in");
    reveal_strlit("out");
    reveal_strlit("device");
    reveal_strlit("version");
    reveal_strlit("screen");
    reveal_strlit("cpu");
    reveal_strlit("model");
    reveal_strlit("id");
    reveal_strlit("name");
    reveal_strlit("fpga");
    reveal_strlit("app");
    reveal_strlit("kernel");
    reveal_strlit("width");
    reveal_strlit("height");
    reveal_strlit("rotation");
    let body = device_info_events(d);
    assert forall|k: int| 0 <= k < body.len() implies (#[trigger] body[k] is Empty || body[k] is Text) by {}
    lemma_open_after_flat(Seq::empty(), body);
    assert(name_ok("device"@) && name_ok("version"@) && name_ok("screen"@));
    assert(name_ok("cpu"@) && name_ok("model"@) && name_ok("id"@) && name_ok("name"@));
    assert(name_ok("fpga"@) && name_ok("app"@) && name_ok("kernel"@));
    assert(name_ok("width"@) && name_ok("height"@) && name_ok("rotation"@));
    assert forall|k: int| 0 <= k < body.len() implies event_ok(#[trigger] body[k]) by {
        if k == 0 {
            assert(keys_ok(body[0]->Empty_1));
        } else if k == 1 {
            assert(keys_ok(body[1]->Empty_1));
        } else {
            assert(keys_ok(body[2]->Empty_1));
        }
    }
    lemma_elements_push(Seq::empty(), body[0]);
    lemma_elements_push(seq![body[0]], body[1]);
    lemma_elements_push(seq![body[0], body[1]], body[2]);
    assert(Seq::<XmlEvent>::empty().push(body[0]) =~= seq![body[0]]);
    assert(seq![body[0]].push(body[1]) =~= seq![body[0], body[1]]);
    assert(seq![body[0], body[1]].push(body[2]) =~= body);
    assert(elements_of(Seq::<XmlEvent>::empty()) =~= Seq::<ElementView>::empty());
    let els = elements_of(body);
    assert(els.len() == 3);
    assert(els[0].0 == "device"@ && els[1].0 == "version"@ && els[2].0 == "screen"@);
}

/// The lookups reading the body makes on one element all succeed.
pub open spec fn device_info_reads(f: ElementFull) -> bool {
    if f.0 == "device"@ {
        readable(f, "cpu"@) && readable(f, "model"@) && readable(f, "id"@) && readable(f, "name"@)
    } else if f.0 == "version"@ {
        readable(f, "fpga"@) && readable(f, "app"@) && readable(f, "kernel"@)
    } else if f.0 == "screen"@ {
        readable(f, "width"@) && readable(f, "height"@) && readable(f, "rotation"@)
    } else {
        true
    }
}

} // verus!
