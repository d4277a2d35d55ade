//! `GetEth0Info` / `SetEth0Info` and `GetWifiInfo` / `SetWifiInfo`.

use vstd::prelude::*;
use crate::sdk::xml::{cooked, elements_full, lemma_elements_view_full, lemma_reads_all_fails, readable, reads_all, ElementFull};
use crate::sdk::envelope::{envelope_name, lemma_envelope_reads_back};
use crate::sdk::xml::{events_wf, event_ok, keys_ok, lemma_open_after_flat, lemma_open_after_wrapped, lemma_open_after_append, name_ok};
use crate::error::ProtoError;
use crate::fmt::{bool_str, bool_text, parse_bool};
use crate::sdk::envelope::{encode_reply, encode_request, envelope_events, lemma_envelope_elements,
    lemma_envelope_render, reply_bytes, request_bytes, SdkReply};
use crate::sdk::messages::{bool_or, decode_checked, decodes_to, or_keep};
use crate::sdk::method::SdkMethod;
use crate::sdk::result::{success_code, SdkResult};
use crate::sdk::xml::{attr, attr_value, attrs_view, elements_of, elements_view, is_named,
    lemma_attr_lookup, lemma_elements_push, lemma_render_take, lemma_scan_append, lemma_scan_push,
    lemma_scan_take, render, scan, ElementView, XmlEvent, XmlWriter};
use crate::fmt::{eq_ignore_ascii_case, eq_ignore_ascii_case_spec};

verus! {

/// Body-less `GetEth0Info` request.
#[derive(Debug, Clone, Copy, PartialEq, Eq, Default)]
pub struct GetEthernet;

impl GetEthernet {
    /// Encode as a request document.
    pub fn encode_request(&self, guid: &str) -> (res: Result<Vec<u8>, ProtoError>)
        ensures
            res matches Ok(b) && b@ == request_bytes(guid@, SdkMethod::GetEth0Info, Seq::empty()),
    {
        proof {
            reveal_strlit("");
            lemma_envelope_render(guid@, "in"@, SdkMethod::GetEth0Info, None, Seq::empty());
        }
        encode_request(guid, SdkMethod::GetEth0Info, "")
    }

    /// Decode a document, surfacing any device error.
    pub fn decode(bytes: &[u8]) -> (res: Result<GetEthernet, ProtoError>)
        ensures
            decodes_to(bytes@, res, |f: ElementFull| true, |v: GetEthernet, es: Seq<ElementView>| true),
    {
        match decode_checked(bytes) {
            Ok(_) => Ok(GetEthernet),
            Err(e) => Err(e),
        }
    }
}

/// The `<eth>` body: the `SetEth0Info` request and the `GetEth0Info` reply share it.
#[derive(Debug, Clone, Default, PartialEq, Eq)]
pub struct EthernetInfo {
    pub enabled: bool,
    pub auto_dhcp: bool,
    pub ip: String,
    pub netmask: String,
    pub gateway: String,
    pub dns: String,
}

/// A [`EthernetInfo`] as plain values.
pub struct EthernetInfoView {
    pub enabled: bool,
    pub auto_dhcp: bool,
    pub ip: Seq<char>,
    pub netmask: Seq<char>,
    pub gateway: Seq<char>,
    pub dns: Seq<char>,
}

impl View for EthernetInfo {
    type V = EthernetInfoView;

    open spec fn view(&self) -> EthernetInfoView {
        EthernetInfoView {
            enabled: self.enabled,
            auto_dhcp: self.auto_dhcp,
            ip: self.ip@,
            netmask: self.netmask@,
            gateway: self.gateway@,
            dns: self.dns@,
        }
    }
}

/// The body's elements, inside `<eth valid="true">`: enable, DHCP, then the address.
pub open spec fn ethernet_events(d: EthernetInfoView) -> Seq<XmlEvent> {
    seq![
        XmlEvent::Start("eth"@, seq![("valid"@, "true"@)]),
        XmlEvent::Empty("enable"@, seq![("value"@, bool_text(d.enabled))]),
        XmlEvent::Empty("dhcp"@, seq![("auto"@, bool_text(d.auto_dhcp))]),
        XmlEvent::Empty("address"@, seq![("ip"@, d.ip), ("netmask"@, d.netmask), ("gateway"@, d.gateway), ("dns"@, d.dns)]),
        XmlEvent::End("eth"@),
    ]
}

/// A disabled, empty ethernet body, which parsing starts from.
pub open spec fn ethernet_default() -> EthernetInfoView {
    EthernetInfoView {
        enabled: false,
        auto_dhcp: false,
        ip: Seq::empty(),
        netmask: Seq::empty(),
        gateway: Seq::empty(),
        dns: Seq::empty(),
    }
}

/// What one element contributes: `<enable>`, `<dhcp>` and `<address>` set the fields they carry; any other element
/// changes nothing.
pub open spec fn ethernet_step(d: EthernetInfoView, e: ElementView) -> EthernetInfoView {
    if e.0 == "enable"@ {
        EthernetInfoView {
            enabled: bool_or(d.enabled, attr_value(e.1, "value"@)),
            ..d
        }
    } else if e.0 == "dhcp"@ {
        EthernetInfoView {
            auto_dhcp: bool_or(d.auto_dhcp, attr_value(e.1, "auto"@)),
            ..d
        }
    } else if e.0 == "address"@ {
        EthernetInfoView {
            ip: or_keep(d.ip, attr_value(e.1, "ip"@)),
            netmask: or_keep(d.netmask, attr_value(e.1, "netmask"@)),
            gateway: or_keep(d.gateway, attr_value(e.1, "gateway"@)),
            dns: or_keep(d.dns, attr_value(e.1, "dns"@)),
            ..d
        }
    } else {
        d
    }
}

/// The body read from a document's elements.
pub open spec fn ethernet_scan(es: Seq<ElementView>) -> EthernetInfoView {
    scan(ethernet_default(), es, |d: EthernetInfoView, e: ElementView| ethernet_step(d, e))
}

impl EthernetInfo {
    /// Write the body's elements.
    pub fn write_body(&self, x: &mut XmlWriter) -> (res: Result<(), ProtoError>)
        ensures
            res is Ok,
            final(x)@ == old(x)@ + render(ethernet_events(self@)),
    {
        let ghost start = x@;
        let ghost evs = ethernet_events(self@);
        assert(evs.take(0) =~= Seq::<XmlEvent>::empty());
        let a0 = [("valid", "true")];
        x.open("eth", &a0);
        proof {
            assert(attrs_view(a0@) =~= evs[0]->Start_1);
            lemma_render_take(evs, 0);
            assert(x@ =~= start + render(evs.take(1)));
        }
        let a1 = [("value", bool_str(self.enabled))];
        x.empty("enable", &a1);
        proof {
            assert(attrs_view(a1@) =~= evs[1]->Empty_1);
            lemma_render_take(evs, 1);
            assert(x@ =~= start + render(evs.take(2)));
        }
        let a2 = [("auto", bool_str(self.auto_dhcp))];
        x.empty("dhcp", &a2);
        proof {
            assert(attrs_view(a2@) =~= evs[2]->Empty_1);
            lemma_render_take(evs, 2);
            assert(x@ =~= start + render(evs.take(3)));
        }
        let a3 = [("ip", self.ip.as_str()), ("netmask", self.netmask.as_str()), ("gateway", self.gateway.as_str()), ("dns", self.dns.as_str())];
        x.empty("address", &a3);
        proof {
            assert(attrs_view(a3@) =~= evs[3]->Empty_1);
            lemma_render_take(evs, 3);
            assert(x@ =~= start + render(evs.take(4)));
        }
        x.close("eth");
        proof {
            lemma_render_take(evs, 4);
            assert(x@ =~= start + render(evs.take(5)));
        }
        assert(evs.take(5) =~= evs);
        Ok(())
    }

    /// Read the body back out of a decoded envelope by scanning its elements.
    pub fn parse_body(reply: &SdkReply) -> (res: Result<EthernetInfo, ProtoError>)
        ensures
            res is Ok <==> reads_all(elements_full(reply.elements@), |f: ElementFull| ethernet_reads(f)),
            res matches Ok(v) ==> v@ == ethernet_scan(elements_view(reply.elements@)),
            res matches Err(e) ==> e is Xml,
{
        let ghost ev = elements_view(reply.elements@);
        let ghost step = |d: EthernetInfoView, e: ElementView| ethernet_step(d, e);
        let mut info = EthernetInfo {
            enabled: false,
            auto_dhcp: false,
            ip: String::new(),
            netmask: String::new(),
            gateway: String::new(),
            dns: String::new(),
        };
        let n = reply.elements.len();
        let mut i: usize = 0;
        assert(ev.take(0) =~= Seq::<ElementView>::empty());
        while i < n
            invariant
                n == reply.elements@.len(),
                i <= n,
                ev == elements_view(reply.elements@),
                step == (|d: EthernetInfoView, e: ElementView| ethernet_step(d, e)),
                info@ == scan(ethernet_default(), ev.take(i as int), step),
                forall|k: int| 0 <= k < i ==> ethernet_reads(#[trigger] elements_full(reply.elements@)[k]),
            decreases n - i,
        {
            let e = &reply.elements[i];
            proof {
                lemma_scan_take(ethernet_default(), ev, i as int, step);
                assert(ev[i as int] == e@);
            }
            if is_named(e, "enable") {
                match attr(e, "value") {
                    Err(err) => {
                        proof {
                            assert(!ethernet_reads(elements_full(reply.elements@)[i as int]));
                            lemma_reads_all_fails(elements_full(reply.elements@), |f: ElementFull| ethernet_reads(f), i as int);
                        }
                        return Err(err);
                    },
                    Ok(None) => {},
                    Ok(Some(v)) => {
                    info.enabled = parse_bool(v.as_str());
                },
                }
            } else if is_named(e, "dhcp") {
                match attr(e, "auto") {
                    Err(err) => {
                        proof {
                            assert(!ethernet_reads(elements_full(reply.elements@)[i as int]));
                            lemma_reads_all_fails(elements_full(reply.elements@), |f: ElementFull| ethernet_reads(f), i as int);
                        }
                        return Err(err);
                    },
                    Ok(None) => {},
                    Ok(Some(v)) => {
                    info.auto_dhcp = parse_bool(v.as_str());
                },
                }
            } else if is_named(e, "address") {
                match attr(e, "ip") {
                    Err(err) => {
                        proof {
                            assert(!ethernet_reads(elements_full(reply.elements@)[i as int]));
                            lemma_reads_all_fails(elements_full(reply.elements@), |f: ElementFull| ethernet_reads(f), i as int);
                        }
                        return Err(err);
                    },
                    Ok(None) => {},
                    Ok(Some(v)) => {
                    info.ip = v;
                },
                }
                match attr(e, "netmask") {
                    Err(err) => {
                        proof {
                            assert(!ethernet_reads(elements_full(reply.elements@)[i as int]));
                            lemma_reads_all_fails(elements_full(reply.elements@), |f: ElementFull| ethernet_reads(f), i as int);
                        }
                        return Err(err);
                    },
                    Ok(None) => {},
                    Ok(Some(v)) => {
                    info.netmask = v;
                },
                }
                match attr(e, "gateway") {
                    Err(err) => {
                        proof {
                            assert(!ethernet_reads(elements_full(reply.elements@)[i as int]));
                            lemma_reads_all_fails(elements_full(reply.elements@), |f: ElementFull| ethernet_reads(f), i as int);
                        }
                        return Err(err);
                    },
                    Ok(None) => {},
                    Ok(Some(v)) => {
                    info.gateway = v;
                },
                }
                match attr(e, "dns") {
                    Err(err) => {
                        proof {
                            assert(!ethernet_reads(elements_full(reply.elements@)[i as int]));
                            lemma_reads_all_fails(elements_full(reply.elements@), |f: ElementFull| ethernet_reads(f), i as int);
                        }
                        return Err(err);
                    },
                    Ok(None) => {},
                    Ok(Some(v)) => {
                    info.dns = v;
                },
                }
            }
            assert(ethernet_reads(elements_full(reply.elements@)[i as int]));
            i = i + 1;
        }
        assert(ev.take(n as int) =~= ev);
        Ok(info)
    }

    /// Encode as a `SetEth0Info` request document.
    pub fn encode_request(&self, guid: &str) -> (res: Result<Vec<u8>, ProtoError>)
        ensures
            res matches Ok(b) && b@ == request_bytes(guid@, SdkMethod::SetEth0Info, ethernet_events(self@)),
    {
        let mut x = XmlWriter::new();
        let _ = self.write_body(&mut x);
        let body = x.into_string();
        proof {
            lemma_envelope_render(guid@, "in"@, SdkMethod::SetEth0Info, None, ethernet_events(self@));
        }
        encode_request(guid, SdkMethod::SetEth0Info, body.as_str())
    }

    /// Encode as a `SetEth0Info` reply document.
    pub fn encode_reply(&self, guid: &str, result: &SdkResult) -> (res: Result<Vec<u8>, ProtoError>)
        ensures
            res matches Ok(b) && b@ == reply_bytes(guid@, SdkMethod::SetEth0Info, result@, ethernet_events(self@)),
    {
        let mut x = XmlWriter::new();
        let _ = self.write_body(&mut x);
        let body = x.into_string();
        proof {
            lemma_envelope_render(guid@, "out"@, SdkMethod::SetEth0Info, Some(result@), ethernet_events(self@));
        }
        encode_reply(guid, SdkMethod::SetEth0Info, result, body.as_str())
    }

    /// Decode a document into the body, first surfacing any device error.
    /// The bytes of a successful reply carrying a body decode to that body.
    pub fn decode(bytes: &[u8]) -> (res: Result<EthernetInfo, ProtoError>)
        ensures
            decodes_to(bytes@, res, |f: ElementFull| ethernet_reads(f), |v: EthernetInfo, es: Seq<ElementView>| v@ == ethernet_scan(es)),
            forall|g: Seq<char>, m: SdkMethod, d: EthernetInfoView| #[trigger] reply_bytes(g, m, success_code(), ethernet_events(d))
                == bytes@ ==> (res matches Ok(v) && v@ == d),
    {
        let reply = match decode_checked(bytes) {
            Ok(r) => r,
            Err(e) => {
                proof {
                    assert forall|g: Seq<char>, m: SdkMethod, d: EthernetInfoView| #[trigger] reply_bytes(g, m, success_code(), ethernet_events(d))
                        != bytes@ by {
                        if reply_bytes(g, m, success_code(), ethernet_events(d)) == bytes@ {
                            lemma_ethernet_wf(d);
                            lemma_envelope_reads_back(bytes@, g, "out"@, m, Some(success_code()), ethernet_events(d));
                        }
                    }
                }
                return Err(e);
            },
        };
        let res = Self::parse_body(&reply);
        proof {
            lemma_elements_view_full(reply.elements@);
            lemma_elements_view_full(reply.elements@);
            assert forall|g: Seq<char>, m: SdkMethod, d: EthernetInfoView| #[trigger] reply_bytes(g, m, success_code(), ethernet_events(d))
                == bytes@ implies (res matches Ok(v) && v@ == d) by {
                lemma_ethernet_wf(d);
                lemma_envelope_reads_back(bytes@, g, "out"@, m, Some(success_code()), ethernet_events(d));
                reveal_strlit("out");
                lemma_ethernet_roundtrip(g, "out"@, m, Some(success_code()), d);
            }
        }
        res
    }
}

/// Reading back the elements of a written body, in any request or reply
/// envelope, gives the body that was written.
pub proof fn lemma_ethernet_roundtrip(
    guid: Seq<char>,
    tag: Seq<char>,
    method: SdkMethod,
    result: Option<Seq<char>>,
    d: EthernetInfoView,
)
    requires
        tag == "in"@ || tag == "out"@,
    ensures
        ethernet_scan(elements_of(envelope_events(guid, tag, method, result, ethernet_events(d)))) == d,
{
    reveal_strlit("address");
    reveal_strlit("auto");
    reveal_strlit("dhcp");
    reveal_strlit("dns");
    reveal_strlit("enable");
    reveal_strlit("eth");
    reveal_strlit("gateway");
    reveal_strlit("guid");
    reveal_strlit("in");
    reveal_strlit("ip");
    reveal_strlit("netmask");
    reveal_strlit("out");
    reveal_strlit("sdk");
    reveal_strlit("valid");
    reveal_strlit("value");
    let step = |d: EthernetInfoView, e: ElementView| ethernet_step(d, e);
    let body = ethernet_events(d);
    let init = ethernet_default();
    let h0: ElementView = ("sdk"@, seq![("guid"@, guid)]);
    let h1: ElementView = (tag, crate::sdk::envelope::method_attrs(method, result));
    lemma_envelope_elements(guid, tag, method, result, body);
    lemma_scan_append(init, seq![h0, h1], elements_of(body), step);
    lemma_scan_push(init, Seq::empty(), h0, step);
    lemma_scan_push(init, seq![h0], h1, step);
    assert(Seq::<ElementView>::empty().push(h0) =~= seq![h0]);
    assert(seq![h0].push(h1) =~= seq![h0, h1]);
    assert(scan(init, Seq::<ElementView>::empty(), step) == init);
    assert("sdk"@.len() == 3 && "enable"@.len() == 6);
    assert("in"@.len() == 2 && "enable"@.len() == 6);
    assert("out"@.len() == 3 && "enable"@.len() == 6);
    assert("sdk"@.len() == 3 && "dhcp"@.len() == 4);
    assert("in"@.len() == 2 && "dhcp"@.len() == 4);
    assert("out"@.len() == 3 && "dhcp"@.len() == 4);
    assert("sdk"@.len() == 3 && "address"@.len() == 7);
    assert("in"@.len() == 2 && "address"@.len() == 7);
    assert("out"@.len() == 3 && "address"@.len() == 7);
    assert(ethernet_step(init, h0) == init);
    assert(ethernet_step(init, h1) == init);
    assert(scan(init, seq![h0, h1], step) == init);
    assert(crate::sdk::xml::plain("valid"@));
    lemma_attr_lookup(body[0]->Start_1, 0);
    assert(crate::sdk::xml::plain("value"@));
    lemma_attr_lookup(body[1]->Empty_1, 0);
    assert(crate::sdk::xml::plain("auto"@));
    lemma_attr_lookup(body[2]->Empty_1, 0);
    assert(crate::sdk::xml::plain("ip"@));
    assert(crate::sdk::xml::plain("netmask"@));
    assert(crate::sdk::xml::plain("gateway"@));
    assert(crate::sdk::xml::plain("dns"@));
    assert("ip"@.len() == 2 && "netmask"@.len() == 7);
    assert("ip"@.len() == 2 && "gateway"@.len() == 7);
    assert("netmask"@[0] != "gateway"@[0]);
    assert("eth"@[0] != "sdk"@[0] && "eth"@[0] != "out"@[0]);
    assert("ip"@.len() == 2 && "dns"@.len() == 3);
    assert("netmask"@.len() == 7 && "dns"@.len() == 3);
    assert("gateway"@.len() == 7 && "dns"@.len() == 3);
    lemma_attr_lookup(body[3]->Empty_1, 0);
    lemma_attr_lookup(body[3]->Empty_1, 1);
    lemma_attr_lookup(body[3]->Empty_1, 2);
    lemma_attr_lookup(body[3]->Empty_1, 3);
    crate::sdk::messages::lemma_bool_text(d.enabled);
    crate::sdk::messages::lemma_bool_text(d.auto_dhcp);
    lemma_elements_push(Seq::<XmlEvent>::empty(), body[0]);
    assert(Seq::<XmlEvent>::empty().push(body[0]) =~= seq![body[0]]);
    lemma_elements_push(seq![body[0]], body[1]);
    assert(seq![body[0]].push(body[1]) =~= seq![body[0], body[1]]);
    lemma_elements_push(seq![body[0], body[1]], body[2]);
    assert(seq![body[0], body[1]].push(body[2]) =~= seq![body[0], body[1], body[2]]);
    lemma_elements_push(seq![body[0], body[1], body[2]], body[3]);
    assert(seq![body[0], body[1], body[2]].push(body[3]) =~= seq![body[0], body[1], body[2], body[3]]);
    lemma_elements_push(seq![body[0], body[1], body[2], body[3]], body[4]);
    assert(seq![body[0], body[1], body[2], body[3]].push(body[4]) =~= seq![body[0], body[1], body[2], body[3], body[4]]);
    assert(seq![body[0], body[1], body[2], body[3], body[4]] =~= body);
    assert(elements_of(Seq::<XmlEvent>::empty()) =~= Seq::<ElementView>::empty());
    let e0: ElementView = ("eth"@, body[0]->Start_1);
    let e1: ElementView = ("enable"@, body[1]->Empty_1);
    let e2: ElementView = ("dhcp"@, body[2]->Empty_1);
    let e3: ElementView = ("address"@, body[3]->Empty_1);
    assert(elements_of(body) =~= seq![e0, e1, e2, e3]);
    assert("eth"@.len() == 3 && "enable"@.len() == 6);
    assert("eth"@.len() == 3 && "dhcp"@.len() == 4);
    assert("eth"@.len() == 3 && "address"@.len() == 7);
    assert("enable"@.len() == 6 && "dhcp"@.len() == 4);
    assert("enable"@.len() == 6 && "address"@.len() == 7);
    assert("dhcp"@.len() == 4 && "enable"@.len() == 6);
    assert("dhcp"@.len() == 4 && "address"@.len() == 7);
    assert("address"@.len() == 7 && "enable"@.len() == 6);
    assert("address"@.len() == 7 && "dhcp"@.len() == 4);
    lemma_scan_push(init, Seq::<ElementView>::empty(), e0, step);
    assert(Seq::<ElementView>::empty().push(e0) =~= seq![e0]);
    lemma_scan_push(init, seq![e0], e1, step);
    assert(seq![e0].push(e1) =~= seq![e0, e1]);
    lemma_scan_push(init, seq![e0, e1], e2, step);
    assert(seq![e0, e1].push(e2) =~= seq![e0, e1, e2]);
    lemma_scan_push(init, seq![e0, e1, e2], e3, step);
    assert(seq![e0, e1, e2].push(e3) =~= seq![e0, e1, e2, e3]);
    assert(scan(init, seq![e0, e1, e2, e3], step) =~= d);
}

/// Body-less `GetWifiInfo` request.
#[derive(Debug, Clone, Copy, PartialEq, Eq, Default)]
pub struct GetWifi;

impl GetWifi {
    /// Encode as a request document.
    pub fn encode_request(&self, guid: &str) -> (res: Result<Vec<u8>, ProtoError>)
        ensures
            res matches Ok(b) && b@ == request_bytes(guid@, SdkMethod::GetWifiInfo, Seq::empty()),
    {
        proof {
            reveal_strlit("");
            lemma_envelope_render(guid@, "in"@, SdkMethod::GetWifiInfo, None, Seq::empty());
        }
        encode_request(guid, SdkMethod::GetWifiInfo, "")
    }

    /// Decode a document, surfacing any device error.
    pub fn decode(bytes: &[u8]) -> (res: Result<GetWifi, ProtoError>)
        ensures
            decodes_to(bytes@, res, |f: ElementFull| true, |v: GetWifi, es: Seq<ElementView>| true),
    {
        match decode_checked(bytes) {
            Ok(_) => Ok(GetWifi),
            Err(e) => Err(e),
        }
    }
}

/// Whether the Wi-Fi module runs its own access point or joins one.
#[derive(Debug, Clone, Copy, PartialEq, Eq, Structural, Default)]
pub enum WifiMode {
    /// The device hosts an access point.
    #[default]
    Ap,
    /// The device joins an existing network.
    Station,
}

/// The text a mode is written as.
pub open spec fn wifi_mode_text(m: WifiMode) -> Seq<char> {
    match m {
        WifiMode::Ap => "ap"@,
        WifiMode::Station => "station"@,
    }
}

/// Every Wi-Fi mode, in declaration order.
pub open spec fn wifi_modes() -> Seq<WifiMode> {
    seq![
        WifiMode::Ap,
        WifiMode::Station,
    ]
}

/// The words the firmware uses for the Wi-Fi modes, in declaration order:
/// `ap`, `station`.
pub proof fn lemma_wifi_mode_texts()
    ensures
        forall|x: WifiMode| wifi_modes().contains(x),
        forall|k: int| 0 <= k < wifi_modes().len() ==> wifi_mode_text(#[trigger] wifi_modes()[k]) == seq!["ap"@, "station"@][k],
{
    assert forall|x: WifiMode| wifi_modes().contains(x) by {
        let k: int = match x {
            WifiMode::Ap => 0,
            WifiMode::Station => 1,
        };
        assert(wifi_modes()[k] == x);
    }
}

/// The mode a text reads as: `station` in any ASCII case, else access point.
pub open spec fn wifi_mode_of(s: Seq<char>) -> WifiMode {
    if eq_ignore_ascii_case_spec(s, "station"@) {
        WifiMode::Station
    } else {
        WifiMode::Ap
    }
}

/// A mode written out reads back as itself.
pub proof fn lemma_wifi_mode_text(m: WifiMode)
    ensures
        wifi_mode_of(wifi_mode_text(m)) == m,
{
    reveal_strlit("ap");
    reveal_strlit("station");
    if m is Ap {
        assert(!eq_ignore_ascii_case_spec("ap"@, "station"@));
    }
}

impl WifiMode {
    /// The text the firmware uses for this mode.
    pub fn as_str(&self) -> (s: &'static str)
        ensures
            s@ == wifi_mode_text(*self),
    {
        match self {
            WifiMode::Ap => "ap",
            WifiMode::Station => "station",
        }
    }

    /// Read a mode: `station` in any ASCII case, anything else an access point.
    pub fn from_str(s: &str) -> (m: WifiMode)
        ensures
            m == wifi_mode_of(s@),
    {
        if eq_ignore_ascii_case(s, "station") {
            WifiMode::Station
        } else {
            WifiMode::Ap
        }
    }
}

/// The `<wifi>` body: the `SetWifiInfo` request and the `GetWifiInfo` reply share it.
///
/// Modeled around the access-point fields the firmware reliably reports.
#[derive(Debug, Clone, Default, PartialEq, Eq)]
pub struct WifiInfo {
    pub has_wifi: bool,
    pub enabled: bool,
    pub mode: WifiMode,
    pub ssid: String,
    pub password: String,
    pub channel: String,
    pub encryption: String,
}

/// A [`WifiInfo`] as plain values.
pub struct WifiInfoView {
    pub has_wifi: bool,
    pub enabled: bool,
    pub mode: WifiMode,
    pub ssid: Seq<char>,
    pub password: Seq<char>,
    pub channel: Seq<char>,
    pub encryption: Seq<char>,
}

impl View for WifiInfo {
    type V = WifiInfoView;

    open spec fn view(&self) -> WifiInfoView {
        WifiInfoView {
            has_wifi: self.has_wifi,
            enabled: self.enabled,
            mode: self.mode,
            ssid: self.ssid@,
            password: self.password@,
            channel: self.channel@,
            encryption: self.encryption@,
        }
    }
}

/// The body's elements, presence, enable, mode, then the access point inside `<ap>`.
pub open spec fn wifi_events(d: WifiInfoView) -> Seq<XmlEvent> {
    seq![
        XmlEvent::Empty("wifi"@, seq![("valid"@, bool_text(d.has_wifi))]),
        XmlEvent::Empty("enable"@, seq![("value"@, bool_text(d.enabled))]),
        XmlEvent::Empty("mode"@, seq![("value"@, wifi_mode_text(d.mode))]),
        XmlEvent::Start("ap"@, seq![]),
        XmlEvent::Empty("ssid"@, seq![("value"@, d.ssid)]),
        XmlEvent::Empty("passwd"@, seq![("value"@, d.password)]),
        XmlEvent::Empty("channel"@, seq![("value"@, d.channel)]),
        XmlEvent::Empty("encryption"@, seq![("value"@, d.encryption)]),
        XmlEvent::End("ap"@),
    ]
}

/// An absent, access-point-mode body, which parsing starts from.
pub open spec fn wifi_default() -> WifiInfoView {
    WifiInfoView {
        has_wifi: false,
        enabled: false,
        mode: WifiMode::Ap,
        ssid: Seq::empty(),
        password: Seq::empty(),
        channel: Seq::empty(),
        encryption: Seq::empty(),
    }
}

/// What one element contributes: each single-value element sets its field; any other element
/// changes nothing.
pub open spec fn wifi_step(d: WifiInfoView, e: ElementView) -> WifiInfoView {
    if e.0 == "wifi"@ {
        WifiInfoView {
            has_wifi: bool_or(d.has_wifi, attr_value(e.1, "valid"@)),
            ..d
        }
    } else if e.0 == "enable"@ {
        WifiInfoView {
            enabled: bool_or(d.enabled, attr_value(e.1, "value"@)),
            ..d
        }
    } else if e.0 == "mode"@ {
        WifiInfoView {
            mode: match attr_value(e.1, "value"@) { Some(s) => wifi_mode_of(s), None => d.mode },
            ..d
        }
    } else if e.0 == "ssid"@ {
        WifiInfoView {
            ssid: or_keep(d.ssid, attr_value(e.1, "value"@)),
            ..d
        }
    } else if e.0 == "passwd"@ {
        WifiInfoView {
            password: or_keep(d.password, attr_value(e.1, "value"@)),
            ..d
        }
    } else if e.0 == "channel"@ {
        WifiInfoView {
            channel: or_keep(d.channel, attr_value(e.1, "value"@)),
            ..d
        }
    } else if e.0 == "encryption"@ {
        WifiInfoView {
            encryption: or_keep(d.encryption, attr_value(e.1, "value"@)),
            ..d
        }
    } else {
        d
    }
}

/// The body read from a document's elements.
pub open spec fn wifi_scan(es: Seq<ElementView>) -> WifiInfoView {
    scan(wifi_default(), es, |d: WifiInfoView, e: ElementView| wifi_step(d, e))
}

impl WifiInfo {
    /// Write the body's elements.
    #[verifier::spinoff_prover]
    #[verifier::rlimit(30)]
    pub fn write_body(&self, x: &mut XmlWriter) -> (res: Result<(), ProtoError>)
        ensures
            res is Ok,
            final(x)@ == old(x)@ + render(wifi_events(self@)),
    {
        let ghost start = x@;
        let ghost evs = wifi_events(self@);
        assert(evs.take(0) =~= Seq::<XmlEvent>::empty());
        let a0 = [("valid", bool_str(self.has_wifi))];
        x.empty("wifi", &a0);
        proof {
            assert(attrs_view(a0@) =~= evs[0]->Empty_1);
            lemma_render_take(evs, 0);
            assert(x@ =~= start + render(evs.take(1)));
        }
        let a1 = [("value", bool_str(self.enabled))];
        x.empty("enable", &a1);
        proof {
            assert(attrs_view(a1@) =~= evs[1]->Empty_1);
            lemma_render_take(evs, 1);
            assert(x@ =~= start + render(evs.take(2)));
        }
        let a2 = [("value", self.mode.as_str())];
        x.empty("mode", &a2);
        proof {
            assert(attrs_view(a2@) =~= evs[2]->Empty_1);
            lemma_render_take(evs, 2);
            assert(x@ =~= start + render(evs.take(3)));
        }
        let a3 = [];
        x.open("ap", &a3);
        proof {
            assert(attrs_view(a3@) =~= evs[3]->Start_1);
            lemma_render_take(evs, 3);
            assert(x@ =~= start + render(evs.take(4)));
        }
        let a4 = [("value", self.ssid.as_str())];
        x.empty("ssid", &a4);
        proof {
            assert(attrs_view(a4@) =~= evs[4]->Empty_1);
            lemma_render_take(evs, 4);
            assert(x@ =~= start + render(evs.take(5)));
        }
        let a5 = [("value", self.password.as_str())];
        x.empty("passwd", &a5);
        proof {
            assert(attrs_view(a5@) =~= evs[5]->Empty_1);
            lemma_render_take(evs, 5);
            assert(x@ =~= start + render(evs.take(6)));
        }
        let a6 = [("value", self.channel.as_str())];
        x.empty("channel", &a6);
        proof {
            assert(attrs_view(a6@) =~= evs[6]->Empty_1);
            lemma_render_take(evs, 6);
            assert(x@ =~= start + render(evs.take(7)));
        }
        let a7 = [("value", self.encryption.as_str())];
        x.empty("encryption", &a7);
        proof {
            assert(attrs_view(a7@) =~= evs[7]->Empty_1);
            lemma_render_take(evs, 7);
            assert(x@ =~= start + render(evs.take(8)));
        }
        x.close("ap");
        proof {
            lemma_render_take(evs, 8);
            assert(x@ =~= start + render(evs.take(9)));
        }
        assert(evs.take(9) =~= evs);
        Ok(())
    }

    /// Read the body back out of a decoded envelope by scanning its elements.
    pub fn parse_body(reply: &SdkReply) -> (res: Result<WifiInfo, ProtoError>)
        ensures
            res is Ok <==> reads_all(elements_full(reply.elements@), |f: ElementFull| wifi_reads(f)),
            res matches Ok(v) ==> v@ == wifi_scan(elements_view(reply.elements@)),
            res matches Err(e) ==> e is Xml,
{
        let ghost ev = elements_view(reply.elements@);
        let ghost step = |d: WifiInfoView, e: ElementView| wifi_step(d, e);
        let mut info = WifiInfo {
            has_wifi: false,
            enabled: false,
            mode: WifiMode::Ap,
            ssid: String::new(),
            password: String::new(),
            channel: String::new(),
            encryption: String::new(),
        };
        let n = reply.elements.len();
        let mut i: usize = 0;
        assert(ev.take(0) =~= Seq::<ElementView>::empty());
        while i < n
            invariant
                n == reply.elements@.len(),
                i <= n,
                ev == elements_view(reply.elements@),
                step == (|d: WifiInfoView, e: ElementView| wifi_step(d, e)),
                info@ == scan(wifi_default(), ev.take(i as int), step),
                forall|k: int| 0 <= k < i ==> wifi_reads(#[trigger] elements_full(reply.elements@)[k]),
            decreases n - i,
        {
            let e = &reply.elements[i];
            proof {
                lemma_scan_take(wifi_default(), ev, i as int, step);
                assert(ev[i as int] == e@);
            }
            if is_named(e, "wifi") {
                match attr(e, "valid") {
                    Err(err) => {
                        proof {
                            assert(!wifi_reads(elements_full(reply.elements@)[i as int]));
                            lemma_reads_all_fails(elements_full(reply.elements@), |f: ElementFull| wifi_reads(f), i as int);
                        }
                        return Err(err);
                    },
                    Ok(None) => {},
                    Ok(Some(v)) => {
                    info.has_wifi = parse_bool(v.as_str());
                },
                }
            } else if is_named(e, "enable") {
                match attr(e, "value") {
                    Err(err) => {
                        proof {
                            assert(!wifi_reads(elements_full(reply.elements@)[i as int]));
                            lemma_reads_all_fails(elements_full(reply.elements@), |f: ElementFull| wifi_reads(f), i as int);
                        }
                        return Err(err);
                    },
                    Ok(None) => {},
                    Ok(Some(v)) => {
                    info.enabled = parse_bool(v.as_str());
                },
                }
            } else if is_named(e, "mode") {
                match attr(e, "value") {
                    Err(err) => {
                        proof {
                            assert(!wifi_reads(elements_full(reply.elements@)[i as int]));
                            lemma_reads_all_fails(elements_full(reply.elements@), |f: ElementFull| wifi_reads(f), i as int);
                        }
                        return Err(err);
                    },
                    Ok(None) => {},
                    Ok(Some(v)) => {
                    info.mode = WifiMode::from_str(v.as_str());
                },
                }
            } else if is_named(e, "ssid") {
                match attr(e, "value") {
                    Err(err) => {
                        proof {
                            assert(!wifi_reads(elements_full(reply.elements@)[i as int]));
                            lemma_reads_all_fails(elements_full(reply.elements@), |f: ElementFull| wifi_reads(f), i as int);
                        }
                        return Err(err);
                    },
                    Ok(None) => {},
                    Ok(Some(v)) => {
                    info.ssid = v;
                },
                }
            } else if is_named(e, "passwd") {
                match attr(e, "value") {
                    Err(err) => {
                        proof {
                            assert(!wifi_reads(elements_full(reply.elements@)[i as int]));
                            lemma_reads_all_fails(elements_full(reply.elements@), |f: ElementFull| wifi_reads(f), i as int);
                        }
                        return Err(err);
                    },
                    Ok(None) => {},
                    Ok(Some(v)) => {
                    info.password = v;
                },
                }
            } else if is_named(e, "channel") {
                match attr(e, "value") {
                    Err(err) => {
                        proof {
                            assert(!wifi_reads(elements_full(reply.elements@)[i as int]));
                            lemma_reads_all_fails(elements_full(reply.elements@), |f: ElementFull| wifi_reads(f), i as int);
                        }
                        return Err(err);
                    },
                    Ok(None) => {},
                    Ok(Some(v)) => {
                    info.channel = v;
                },
                }
            } else if is_named(e, "encryption") {
                match attr(e, "value") {
                    Err(err) => {
                        proof {
                            assert(!wifi_reads(elements_full(reply.elements@)[i as int]));
                            lemma_reads_all_fails(elements_full(reply.elements@), |f: ElementFull| wifi_reads(f), i as int);
                        }
                        return Err(err);
                    },
                    Ok(None) => {},
                    Ok(Some(v)) => {
                    info.encryption = v;
                },
                }
            }
            assert(wifi_reads(elements_full(reply.elements@)[i as int]));
            i = i + 1;
        }
        assert(ev.take(n as int) =~= ev);
        Ok(info)
    }

    /// Encode as a `SetWifiInfo` request document.
    pub fn encode_request(&self, guid: &str) -> (res: Result<Vec<u8>, ProtoError>)
        ensures
            res matches Ok(b) && b@ == request_bytes(guid@, SdkMethod::SetWifiInfo, wifi_events(self@)),
    {
        let mut x = XmlWriter::new();
        let _ = self.write_body(&mut x);
        let body = x.into_string();
        proof {
            lemma_envelope_render(guid@, "in"@, SdkMethod::SetWifiInfo, None, wifi_events(self@));
        }
        encode_request(guid, SdkMethod::SetWifiInfo, body.as_str())
    }

    /// Encode as a `SetWifiInfo` reply document.
    pub fn encode_reply(&self, guid: &str, result: &SdkResult) -> (res: Result<Vec<u8>, ProtoError>)
        ensures
            res matches Ok(b) && b@ == reply_bytes(guid@, SdkMethod::SetWifiInfo, result@, wifi_events(self@)),
    {
        let mut x = XmlWriter::new();
        let _ = self.write_body(&mut x);
        let body = x.into_string();
        proof {
            lemma_envelope_render(guid@, "out"@, SdkMethod::SetWifiInfo, Some(result@), wifi_events(self@));
        }
        encode_reply(guid, SdkMethod::SetWifiInfo, result, body.as_str())
    }

    /// Decode a document into the body, first surfacing any device error.
    /// The bytes of a successful reply carrying a body decode to that body.
    pub fn decode(bytes: &[u8]) -> (res: Result<WifiInfo, ProtoError>)
        ensures
            decodes_to(bytes@, res, |f: ElementFull| wifi_reads(f), |v: WifiInfo, es: Seq<ElementView>| v@ == wifi_scan(es)),
            forall|g: Seq<char>, m: SdkMethod, d: WifiInfoView| #[trigger] reply_bytes(g, m, success_code(), wifi_events(d))
                == bytes@ ==> (res matches Ok(v) && v@ == d),
    {
        let reply = match decode_checked(bytes) {
            Ok(r) => r,
            Err(e) => {
                proof {
                    assert forall|g: Seq<char>, m: SdkMethod, d: WifiInfoView| #[trigger] reply_bytes(g, m, success_code(), wifi_events(d))
                        != bytes@ by {
                        if reply_bytes(g, m, success_code(), wifi_events(d)) == bytes@ {
                            lemma_wifi_wf(d);
                            lemma_envelope_reads_back(bytes@, g, "out"@, m, Some(success_code()), wifi_events(d));
                        }
                    }
                }
                return Err(e);
            },
        };
        let res = Self::parse_body(&reply);
        proof {
            assert forall|g: Seq<char>, m: SdkMethod, d: WifiInfoView| #[trigger] reply_bytes(g, m, success_code(), wifi_events(d))
                == bytes@ implies (res matches Ok(v) && v@ == d) by {
                lemma_wifi_wf(d);
                lemma_envelope_reads_back(bytes@, g, "out"@, m, Some(success_code()), wifi_events(d));
                reveal_strlit("out");
                lemma_wifi_roundtrip(g, "out"@, m, Some(success_code()), d);
            }
        }
        res
    }
}

/// Reading back the elements of a written body, in any request or reply
/// envelope, gives the body that was written.
pub proof fn lemma_wifi_roundtrip(
    guid: Seq<char>,
    tag: Seq<char>,
    method: SdkMethod,
    result: Option<Seq<char>>,
    d: WifiInfoView,
)
    requires
        tag == "in"@ || tag == "out"@,
    ensures
        wifi_scan(elements_of(envelope_events(guid, tag, method, result, wifi_events(d)))) == d,
{
    reveal_strlit("ap");
    reveal_strlit("channel");
    reveal_strlit("enable");
    reveal_strlit("encryption");
    reveal_strlit("guid");
    reveal_strlit("in");
    reveal_strlit("mode");
    reveal_strlit("out");
    reveal_strlit("passwd");
    reveal_strlit("sdk");
    reveal_strlit("ssid");
    reveal_strlit("valid");
    reveal_strlit("value");
    reveal_strlit("wifi");
    let step = |d: WifiInfoView, e: ElementView| wifi_step(d, e);
    let body = wifi_events(d);
    let init = wifi_default();
    let h0: ElementView = ("sdk"@, seq![("guid"@, guid)]);
    let h1: ElementView = (tag, crate::sdk::envelope::method_attrs(method, result));
    lemma_envelope_elements(guid, tag, method, result, body);
    lemma_scan_append(init, seq![h0, h1], elements_of(body), step);
    lemma_scan_push(init, Seq::empty(), h0, step);
    lemma_scan_push(init, seq![h0], h1, step);
    assert(Seq::<ElementView>::empty().push(h0) =~= seq![h0]);
    assert(seq![h0].push(h1) =~= seq![h0, h1]);
    assert(scan(init, Seq::<ElementView>::empty(), step) == init);
    assert("sdk"@.len() == 3 && "wifi"@.len() == 4);
    assert("in"@.len() == 2 && "wifi"@.len() == 4);
    assert("out"@.len() == 3 && "wifi"@.len() == 4);
    assert("sdk"@.len() == 3 && "enable"@.len() == 6);
    assert("in"@.len() == 2 && "enable"@.len() == 6);
    assert("out"@.len() == 3 && "enable"@.len() == 6);
    assert("sdk"@.len() == 3 && "mode"@.len() == 4);
    assert("in"@.len() == 2 && "mode"@.len() == 4);
    assert("out"@.len() == 3 && "mode"@.len() == 4);
    assert("sdk"@.len() == 3 && "ssid"@.len() == 4);
    assert("in"@.len() == 2 && "ssid"@.len() == 4);
    assert("out"@.len() == 3 && "ssid"@.len() == 4);
    assert("sdk"@.len() == 3 && "passwd"@.len() == 6);
    assert("in"@.len() == 2 && "passwd"@.len() == 6);
    assert("out"@.len() == 3 && "passwd"@.len() == 6);
    assert("sdk"@.len() == 3 && "channel"@.len() == 7);
    assert("in"@.len() == 2 && "channel"@.len() == 7);
    assert("out"@.len() == 3 && "channel"@.len() == 7);
    assert("sdk"@.len() == 3 && "encryption"@.len() == 10);
    assert("in"@.len() == 2 && "encryption"@.len() == 10);
    assert("out"@.len() == 3 && "encryption"@.len() == 10);
    assert(wifi_step(init, h0) == init);
    assert(wifi_step(init, h1) == init);
    assert(scan(init, seq![h0, h1], step) == init);
    assert(crate::sdk::xml::plain("valid"@));
    lemma_attr_lookup(body[0]->Empty_1, 0);
    assert(crate::sdk::xml::plain("value"@));
    lemma_attr_lookup(body[1]->Empty_1, 0);
    assert(crate::sdk::xml::plain("value"@));
    lemma_attr_lookup(body[2]->Empty_1, 0);
    assert(crate::sdk::xml::plain("value"@));
    lemma_attr_lookup(body[4]->Empty_1, 0);
    assert(crate::sdk::xml::plain("value"@));
    lemma_attr_lookup(body[5]->Empty_1, 0);
    assert(crate::sdk::xml::plain("value"@));
    lemma_attr_lookup(body[6]->Empty_1, 0);
    assert(crate::sdk::xml::plain("value"@));
    lemma_attr_lookup(body[7]->Empty_1, 0);
    crate::sdk::messages::lemma_bool_text(d.has_wifi);
    crate::sdk::messages::lemma_bool_text(d.enabled);
    lemma_wifi_mode_text(d.mode);
    lemma_elements_push(Seq::<XmlEvent>::empty(), body[0]);
    assert(Seq::<XmlEvent>::empty().push(body[0]) =~= seq![body[0]]);
    lemma_elements_push(seq![body[0]], body[1]);
    assert(seq![body[0]].push(body[1]) =~= seq![body[0], body[1]]);
    lemma_elements_push(seq![body[0], body[1]], body[2]);
    assert(seq![body[0], body[1]].push(body[2]) =~= seq![body[0], body[1], body[2]]);
    lemma_elements_push(seq![body[0], body[1], body[2]], body[3]);
    assert(seq![body[0], body[1], body[2]].push(body[3]) =~= seq![body[0], body[1], body[2], body[3]]);
    lemma_elements_push(seq![body[0], body[1], body[2], body[3]], body[4]);
    assert(seq![body[0], body[1], body[2], body[3]].push(body[4]) =~= seq![body[0], body[1], body[2], body[3], body[4]]);
    lemma_elements_push(seq![body[0], body[1], body[2], body[3], body[4]], body[5]);
    assert(seq![body[0], body[1], body[2], body[3], body[4]].push(body[5]) =~= seq![body[0], body[1], body[2], body[3], body[4], body[5]]);
    lemma_elements_push(seq![body[0], body[1], body[2], body[3], body[4], body[5]], body[6]);
    assert(seq![body[0], body[1], body[2], body[3], body[4], body[5]].push(body[6]) =~= seq![body[0], body[1], body[2], body[3], body[4], body[5], body[6]]);
    lemma_elements_push(seq![body[0], body[1], body[2], body[3], body[4], body[5], body[6]], body[7]);
    assert(seq![body[0], body[1], body[2], body[3], body[4], body[5], body[6]].push(body[7]) =~= seq![body[0], body[1], body[2], body[3], body[4], body[5], body[6], body[7]]);
    lemma_elements_push(seq![body[0], body[1], body[2], body[3], body[4], body[5], body[6], body[7]], body[8]);
    assert(seq![body[0], body[1], body[2], body[3], body[4], body[5], body[6], body[7]].push(body[8]) =~= seq![body[0], body[1], body[2], body[3], body[4], body[5], body[6], body[7], body[8]]);
    assert(seq![body[0], body[1], body[2], body[3], body[4], body[5], body[6], body[7], body[8]] =~= body);
    assert(elements_of(Seq::<XmlEvent>::empty()) =~= Seq::<ElementView>::empty());
    let e0: ElementView = ("wifi"@, body[0]->Empty_1);
    let e1: ElementView = ("enable"@, body[1]->Empty_1);
    let e2: ElementView = ("mode"@, body[2]->Empty_1);
    let e3: ElementView = ("ap"@, body[3]->Start_1);
    let e4: ElementView = ("ssid"@, body[4]->Empty_1);
    let e5: ElementView = ("passwd"@, body[5]->Empty_1);
    let e6: ElementView = ("channel"@, body[6]->Empty_1);
    let e7: ElementView = ("encryption"@, body[7]->Empty_1);
    assert(elements_of(body) =~= seq![e0, e1, e2, e3, e4, e5, e6, e7]);
    assert("wifi"@.len() == 4 && "enable"@.len() == 6);
    assert("wifi"@[0] != "mode"@[0]);
    assert("wifi"@[0] != "ssid"@[0]);
    assert("wifi"@.len() == 4 && "passwd"@.len() == 6);
    assert("wifi"@.len() == 4 && "channel"@.len() == 7);
    assert("wifi"@.len() == 4 && "encryption"@.len() == 10);
    assert("enable"@.len() == 6 && "wifi"@.len() == 4);
    assert("enable"@.len() == 6 && "mode"@.len() == 4);
    assert("enable"@.len() == 6 && "ssid"@.len() == 4);
    assert("enable"@[0] != "passwd"@[0]);
    assert("enable"@.len() == 6 && "channel"@.len() == 7);
    assert("enable"@.len() == 6 && "encryption"@.len() == 10);
    assert("mode"@[0] != "wifi"@[0]);
    assert("mode"@.len() == 4 && "enable"@.len() == 6);
    assert("mode"@[0] != "ssid"@[0]);
    assert("mode"@.len() == 4 && "passwd"@.len() == 6);
    assert("mode"@.len() == 4 && "channel"@.len() == 7);
    assert("mode"@.len() == 4 && "encryption"@.len() == 10);
    assert("ap"@.len() == 2 && "wifi"@.len() == 4);
    assert("ap"@.len() == 2 && "enable"@.len() == 6);
    assert("ap"@.len() == 2 && "mode"@.len() == 4);
    assert("ap"@.len() == 2 && "ssid"@.len() == 4);
    assert("ap"@.len() == 2 && "passwd"@.len() == 6);
    assert("ap"@.len() == 2 && "channel"@.len() == 7);
    assert("ap"@.len() == 2 && "encryption"@.len() == 10);
    assert("ssid"@[0] != "wifi"@[0]);
    assert("ssid"@.len() == 4 && "enable"@.len() == 6);
    assert("ssid"@[0] != "mode"@[0]);
    assert("ssid"@.len() == 4 && "passwd"@.len() == 6);
    assert("ssid"@.len() == 4 && "channel"@.len() == 7);
    assert("ssid"@.len() == 4 && "encryption"@.len() == 10);
    assert("passwd"@.len() == 6 && "wifi"@.len() == 4);
    assert("passwd"@[0] != "enable"@[0]);
    assert("passwd"@.len() == 6 && "mode"@.len() == 4);
    assert("passwd"@.len() == 6 && "ssid"@.len() == 4);
    assert("passwd"@.len() == 6 && "channel"@.len() == 7);
    assert("passwd"@.len() == 6 && "encryption"@.len() == 10);
    assert("channel"@.len() == 7 && "wifi"@.len() == 4);
    assert("channel"@.len() == 7 && "enable"@.len() == 6);
    assert("channel"@.len() == 7 && "mode"@.len() == 4);
    assert("channel"@.len() == 7 && "ssid"@.len() == 4);
    assert("channel"@.len() == 7 && "passwd"@.len() == 6);
    assert("channel"@.len() == 7 && "encryption"@.len() == 10);
    assert("encryption"@.len() == 10 && "wifi"@.len() == 4);
    assert("encryption"@.len() == 10 && "enable"@.len() == 6);
    assert("encryption"@.len() == 10 && "mode"@.len() == 4);
    assert("encryption"@.len() == 10 && "ssid"@.len() == 4);
    assert("encryption"@.len() == 10 && "passwd"@.len() == 6);
    assert("encryption"@.len() == 10 && "channel"@.len() == 7);
    lemma_scan_push(init, Seq::<ElementView>::empty(), e0, step);
    assert(Seq::<ElementView>::empty().push(e0) =~= seq![e0]);
    lemma_scan_push(init, seq![e0], e1, step);
    assert(seq![e0].push(e1) =~= seq![e0, e1]);
    lemma_scan_push(init, seq![e0, e1], e2, step);
    assert(seq![e0, e1].push(e2) =~= seq![e0, e1, e2]);
    lemma_scan_push(init, seq![e0, e1, e2], e3, step);
    assert(seq![e0, e1, e2].push(e3) =~= seq![e0, e1, e2, e3]);
    lemma_scan_push(init, seq![e0, e1, e2, e3], e4, step);
    assert(seq![e0, e1, e2, e3].push(e4) =~= seq![e0, e1, e2, e3, e4]);
    lemma_scan_push(init, seq![e0, e1, e2, e3, e4], e5, step);
    assert(seq![e0, e1, e2, e3, e4].push(e5) =~= seq![e0, e1, e2, e3, e4, e5]);
    lemma_scan_push(init, seq![e0, e1, e2, e3, e4, e5], e6, step);
    assert(seq![e0, e1, e2, e3, e4, e5].push(e6) =~= seq![e0, e1, e2, e3, e4, e5, e6]);
    lemma_scan_push(init, seq![e0, e1, e2, e3, e4, e5, e6], e7, step);
    assert(seq![e0, e1, e2, e3, e4, e5, e6].push(e7) =~= seq![e0, e1, e2, e3, e4, e5, e6, e7]);
    assert(scan(init, seq![e0, e1, e2, e3, e4, e5, e6, e7], step) =~= d);
}


/// The body is well formed, and none of its elements is named like the
/// envelope's.
pub proof fn lemma_ethernet_wf(d: EthernetInfoView)
    ensures
        events_wf(ethernet_events(d)),
        forall|k: int| 0 <= k < elements_of(ethernet_events(d)).len() ==> !envelope_name(
            #[trigger] elements_of(ethernet_events(d))[k].0,
        ),
{
    reveal_strlit("address");
    reveal_strlit("auto");
    reveal_strlit("dhcp");
    reveal_strlit("dns");
    reveal_strlit("enable");
    reveal_strlit("eth");
    reveal_strlit("gateway");
    reveal_strlit("in");
    reveal_strlit("ip");
    reveal_strlit("netmask");
    reveal_strlit("out");
    reveal_strlit("sdk");
    reveal_strlit("valid");
    reveal_strlit("value");
    let body = ethernet_events(d);
    let mid = body.subrange(1, 4);
    assert forall|k: int| 0 <= k < mid.len() implies (#[trigger] mid[k] is Empty || mid[k] is Text) by {}
    lemma_open_after_wrapped(Seq::empty(), "eth"@, seq![("valid"@, "true"@)], mid);
    assert(body =~= seq![XmlEvent::Start("eth"@, seq![("valid"@, "true"@)])] + mid + seq![XmlEvent::End("eth"@)]);
    assert(name_ok("address"@) && name_ok("auto"@) && name_ok("dhcp"@) && name_ok("dns"@) && name_ok("enable"@) && name_ok("eth"@) && name_ok("gateway"@) && name_ok("ip"@) && name_ok("netmask"@) && name_ok("valid"@) && name_ok("value"@));
    assert("netmask"@[0] != "gateway"@[0]);
    assert("eth"@[0] != "sdk"@[0] && "eth"@[0] != "out"@[0]);
    assert forall|k: int| 0 <= k < body.len() implies event_ok(#[trigger] body[k]) by {
        if k == 0 { assert(keys_ok(body[0]->Start_1)); }
        if k == 1 { assert(keys_ok(body[1]->Empty_1)); }
        if k == 2 { assert(keys_ok(body[2]->Empty_1)); }
        if k == 3 { assert(keys_ok(body[3]->Empty_1)); }
    }
    lemma_elements_push(Seq::<XmlEvent>::empty(), body[0]);
    assert(Seq::<XmlEvent>::empty().push(body[0]) =~= seq![body[0]]);
    lemma_elements_push(seq![body[0]], body[1]);
    assert(seq![body[0]].push(body[1]) =~= seq![body[0], body[1]]);
    lemma_elements_push(seq![body[0], body[1]], body[2]);
    assert(seq![body[0], body[1]].push(body[2]) =~= seq![body[0], body[1], body[2]]);
    lemma_elements_push(seq![body[0], body[1], body[2]], body[3]);
    assert(seq![body[0], body[1], body[2]].push(body[3]) =~= seq![body[0], body[1], body[2], body[3]]);
    lemma_elements_push(seq![body[0], body[1], body[2], body[3]], body[4]);
    assert(seq![body[0], body[1], body[2], body[3]].push(body[4]) =~= body);
    assert(elements_of(Seq::<XmlEvent>::empty()) =~= Seq::<ElementView>::empty());
    let els = elements_of(body);
    assert(els.len() == 4);
    assert(els[0].0 == "eth"@ && els[1].0 == "enable"@ && els[2].0 == "dhcp"@ && els[3].0 == "address"@);
}


/// The body is well formed, and none of its elements is named like the
/// envelope's.
pub proof fn lemma_wifi_wf(d: WifiInfoView)
    ensures
        events_wf(wifi_events(d)),
        forall|k: int| 0 <= k < elements_of(wifi_events(d)).len() ==> !envelope_name(
            #[trigger] elements_of(wifi_events(d))[k].0,
        ),
{
    reveal_strlit("ap");
    reveal_strlit("channel");
    reveal_strlit("enable");
    reveal_strlit("encryption");
    reveal_strlit("in");
    reveal_strlit("mode");
    reveal_strlit("out");
    reveal_strlit("passwd");
    reveal_strlit("sdk");
    reveal_strlit("ssid");
    reveal_strlit("valid");
    reveal_strlit("value");
    reveal_strlit("wifi");
    assert("ap"@[0] != "in"@[0]);
    let body = wifi_events(d);
    let pre = body.subrange(0, 3);
    let mid = body.subrange(4, 8);
    assert forall|k: int| 0 <= k < pre.len() implies (#[trigger] pre[k] is Empty || pre[k] is Text) by {}
    assert forall|k: int| 0 <= k < mid.len() implies (#[trigger] mid[k] is Empty || mid[k] is Text) by {}
    lemma_open_after_flat(Seq::empty(), pre);
    lemma_open_after_wrapped(Seq::empty(), "ap"@, seq![], mid);
    let w = seq![XmlEvent::Start("ap"@, seq![])] + mid + seq![XmlEvent::End("ap"@)];
    lemma_open_after_append(Some(Seq::empty()), pre, w);
    assert(body =~= pre + w);
    assert(name_ok("ap"@) && name_ok("channel"@) && name_ok("enable"@) && name_ok("encryption"@) && name_ok("mode"@) && name_ok("passwd"@) && name_ok("ssid"@) && name_ok("valid"@) && name_ok("value"@) && name_ok("wifi"@));

    assert forall|k: int| 0 <= k < body.len() implies event_ok(#[trigger] body[k]) by {
        if k == 0 { assert(keys_ok(body[0]->Empty_1)); }
        if k == 1 { assert(keys_ok(body[1]->Empty_1)); }
        if k == 2 { assert(keys_ok(body[2]->Empty_1)); }
        if k == 3 { assert(keys_ok(body[3]->Start_1)); }
        if k == 4 { assert(keys_ok(body[4]->Empty_1)); }
        if k == 5 { assert(keys_ok(body[5]->Empty_1)); }
        if k == 6 { assert(keys_ok(body[6]->Empty_1)); }
        if k == 7 { assert(keys_ok(body[7]->Empty_1)); }
    }
    lemma_elements_push(Seq::<XmlEvent>::empty(), body[0]);
    assert(Seq::<XmlEvent>::empty().push(body[0]) =~= seq![body[0]]);
    lemma_elements_push(seq![body[0]], body[1]);
    assert(seq![body[0]].push(body[1]) =~= seq![body[0], body[1]]);
    lemma_elements_push(seq![body[0], body[1]], body[2]);
    assert(seq![body[0], body[1]].push(body[2]) =~= seq![body[0], body[1], body[2]]);
    lemma_elements_push(seq![body[0], body[1], body[2]], body[3]);
    assert(seq![body[0], body[1], body[2]].push(body[3]) =~= seq![body[0], body[1], body[2], body[3]]);
    lemma_elements_push(seq![body[0], body[1], body[2], body[3]], body[4]);
    assert(seq![body[0], body[1], body[2], body[3]].push(body[4]) =~= seq![body[0], body[1], body[2], body[3], body[4]]);
    lemma_elements_push(seq![body[0], body[1], body[2], body[3], body[4]], body[5]);
    assert(seq![body[0], body[1], body[2], body[3], body[4]].push(body[5]) =~= seq![body[0], body[1], body[2], body[3], body[4], body[5]]);
    lemma_elements_push(seq![body[0], body[1], body[2], body[3], body[4], body[5]], body[6]);
    assert(seq![body[0], body[1], body[2], body[3], body[4], body[5]].push(body[6]) =~= seq![body[0], body[1], body[2], body[3], body[4], body[5], body[6]]);
    lemma_elements_push(seq![body[0], body[1], body[2], body[3], body[4], body[5], body[6]], body[7]);
    assert(seq![body[0], body[1], body[2], body[3], body[4], body[5], body[6]].push(body[7]) =~= seq![body[0], body[1], body[2], body[3], body[4], body[5], body[6], body[7]]);
    lemma_elements_push(seq![body[0], body[1], body[2], body[3], body[4], body[5], body[6], body[7]], body[8]);
    assert(seq![body[0], body[1], body[2], body[3], body[4], body[5], body[6], body[7]].push(body[8]) =~= body);
    assert(elements_of(Seq::<XmlEvent>::empty()) =~= Seq::<ElementView>::empty());
    let els = elements_of(body);
    assert(els.len() == 8);
    assert(els[0].0 == "wifi"@ && els[1].0 == "enable"@ && els[2].0 == "mode"@ && els[3].0 == "ap"@ && els[4].0 == "ssid"@ && els[5].0 == "passwd"@ && els[6].0 == "channel"@ && els[7].0 == "encryption"@);
}

/// The lookups reading the body makes on one element all succeed.
pub open spec fn ethernet_reads(f: ElementFull) -> bool {
    if f.0 == "enable"@ {
        readable(f, "value"@)
    } else if f.0 == "dhcp"@ {
        readable(f, "auto"@)
    } else if f.0 == "address"@ {
        readable(f, "ip"@) && readable(f, "netmask"@) && readable(f, "gateway"@) && readable(f, "dns"@)
    } else {
        true
    }
}

/// The lookups reading the body makes on one element all succeed.
pub open spec fn wifi_reads(f: ElementFull) -> bool {
    if f.0 == "wifi"@ {
        readable(f, "valid"@)
    } else if f.0 == "enable"@ {
        readable(f, "value"@)
    } else if f.0 == "mode"@ {
        readable(f, "value"@)
    } else if f.0 == "ssid"@ {
        readable(f, "value"@)
    } else if f.0 == "passwd"@ {
        readable(f, "value"@)
    } else if f.0 == "channel"@ {
        readable(f, "value"@)
    } else if f.0 == "encryption"@ {
        readable(f, "value"@)
    } else {
        true
    }
}

} // verus!
