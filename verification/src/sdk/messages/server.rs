//! `GetSDKTcpServer` / `SetSDKTcpServer`: the upstream TCP server the device
//! dials into.

use vstd::prelude::*;
use crate::sdk::xml::{cooked, elements_full, lemma_elements_view_full, lemma_reads_all_fails, readable, reads_all, ElementFull};
use crate::sdk::envelope::{envelope_name, lemma_envelope_reads_back};
use crate::sdk::xml::{events_wf, event_ok, keys_ok, lemma_open_after_flat, name_ok};
use crate::error::ProtoError;
use crate::fmt::{dec, parse_int_or, u64_to_string};
use crate::sdk::envelope::{encode_reply, encode_request, envelope_events, lemma_envelope_elements,
    lemma_envelope_render, reply_bytes, request_bytes, SdkReply};
use crate::sdk::messages::{decode_checked, decodes_to, num_or, or_keep};
use crate::sdk::method::SdkMethod;
use crate::sdk::result::{success_code, SdkResult};
use crate::sdk::xml::{attr, attr_value, attrs_view, elements_of, elements_view, is_named,
    lemma_attr_lookup, lemma_elements_push, lemma_render_take, lemma_scan_append, lemma_scan_push,
    lemma_scan_take, render, scan, ElementView, XmlEvent, XmlWriter};

verus! {

/// The device's default TCP port.
pub const DEFAULT_PORT: u16 = 10001;

/// Body-less `GetSDKTcpServer` request.
#[derive(Debug, Clone, Copy, PartialEq, Eq, Default)]
pub struct GetServer;

impl GetServer {
    /// Encode as a request document.
    pub fn encode_request(&self, guid: &str) -> (res: Result<Vec<u8>, ProtoError>)
        ensures
            res matches Ok(b) && b@ == request_bytes(guid@, SdkMethod::GetSdkTcpServer, Seq::empty()),
    {
        proof {
            reveal_strlit("");
            lemma_envelope_render(guid@, "in"@, SdkMethod::GetSdkTcpServer, None, Seq::empty());
        }
        encode_request(guid, SdkMethod::GetSdkTcpServer, "")
    }

    /// Decode a document, surfacing any device error.
    pub fn decode(bytes: &[u8]) -> (res: Result<GetServer, ProtoError>)
        ensures
            decodes_to(bytes@, res, |f: ElementFull| true, |v: GetServer, es: Seq<ElementView>| true),
    {
        match decode_checked(bytes) {
            Ok(_) => Ok(GetServer),
            Err(e) => Err(e),
        }
    }
}

/// The `<server host port>` body: the `SetSDKTcpServer` request and the
/// `GetSDKTcpServer` reply share this shape.
#[derive(Debug, Clone, PartialEq, Eq)]
pub struct ServerInfo {
    pub host: String,
    pub port: u16,
}

/// A [`ServerInfo`] as plain values.
pub struct ServerInfoView {
    pub host: Seq<char>,
    pub port: u16,
}

impl View for ServerInfo {
    type V = ServerInfoView;

    open spec fn view(&self) -> ServerInfoView {
        ServerInfoView {
            host: self.host@,
            port: self.port,
        }
    }
}

/// The body's elements, one `<server host port/>` with the port in decimal.
pub open spec fn server_events(d: ServerInfoView) -> Seq<XmlEvent> {
    seq![
        XmlEvent::Empty("server"@, seq![("host"@, d.host), ("port"@, dec(d.port as nat))]),
    ]
}

/// No host and the default port, which parsing starts from.
pub open spec fn server_default() -> ServerInfoView {
    ServerInfoView {
        host: Seq::empty(),
        port: DEFAULT_PORT,
    }
}

/// What one element contributes: `<server>` sets the host and port it carries, a port that
/// does not parse reading as the default port; any other element
/// changes nothing.
pub open spec fn server_step(d: ServerInfoView, e: ElementView) -> ServerInfoView {
    if e.0 == "server"@ {
        ServerInfoView {
            host: or_keep(d.host, attr_value(e.1, "host"@)),
            port: num_or(d.port as int, attr_value(e.1, "port"@), DEFAULT_PORT as int, 0xffff) as u16,
        }
    } else {
        d
    }
}

/// The body read from a document's elements.
pub open spec fn server_scan(es: Seq<ElementView>) -> ServerInfoView {
    scan(server_default(), es, |d: ServerInfoView, e: ElementView| server_step(d, e))
}

impl Default for ServerInfo {
    /// No host, and the device's default port.
    fn default() -> (s: ServerInfo)
        ensures
            s@ == server_default(),
    {
        ServerInfo { host: String::new(), port: DEFAULT_PORT }
    }
}

impl ServerInfo {
    /// Write the body's elements.
    pub fn write_body(&self, x: &mut XmlWriter) -> (res: Result<(), ProtoError>)
        ensures
            res is Ok,
            final(x)@ == old(x)@ + render(server_events(self@)),
    {
        let ghost start = x@;
        let ghost evs = server_events(self@);
        assert(evs.take(0) =~= Seq::<XmlEvent>::empty());
        let t_port = u64_to_string(self.port as u64);
        let a0 = [("host", self.host.as_str()), ("port", t_port.as_str())];
        x.empty("server", &a0);
        proof {
            assert(attrs_view(a0@) =~= evs[0]->Empty_1);
            lemma_render_take(evs, 0);
            assert(x@ =~= start + render(evs.take(1)));
        }
        assert(evs.take(1) =~= evs);
        Ok(())
    }

    /// Read the body back out of a decoded envelope by scanning its elements.
    pub fn parse_body(reply: &SdkReply) -> (res: Result<ServerInfo, ProtoError>)
        ensures
            res is Ok <==> reads_all(elements_full(reply.elements@), |f: ElementFull| server_reads(f)),
            res matches Ok(v) ==> v@ == server_scan(elements_view(reply.elements@)),
            res matches Err(e) ==> e is Xml,
{
        let ghost ev = elements_view(reply.elements@);
        let ghost step = |d: ServerInfoView, e: ElementView| server_step(d, e);
        let mut info = ServerInfo {
            host: String::new(),
            port: DEFAULT_PORT,
        };
        let n = reply.elements.len();
        let mut i: usize = 0;
        assert(ev.take(0) =~= Seq::<ElementView>::empty());
        while i < n
            invariant
                n == reply.elements@.len(),
                i <= n,
                ev == elements_view(reply.elements@),
                step == (|d: ServerInfoView, e: ElementView| server_step(d, e)),
                info@ == scan(server_default(), ev.take(i as int), step),
                forall|k: int| 0 <= k < i ==> server_reads(#[trigger] elements_full(reply.elements@)[k]),
            decreases n - i,
        {
            let e = &reply.elements[i];
            proof {
                lemma_scan_take(server_default(), ev, i as int, step);
                assert(ev[i as int] == e@);
            }
            if is_named(e, "server") {
                match attr(e, "host") {
                    Err(err) => {
                        proof {
                            assert(!server_reads(elements_full(reply.elements@)[i as int]));
                            lemma_reads_all_fails(elements_full(reply.elements@), |f: ElementFull| server_reads(f), i as int);
                        }
                        return Err(err);
                    },
                    Ok(None) => {},
                    Ok(Some(v)) => {
                    info.host = v;
                },
                }
                match attr(e, "port") {
                    Err(err) => {
                        proof {
                            assert(!server_reads(elements_full(reply.elements@)[i as int]));
                            lemma_reads_all_fails(elements_full(reply.elements@), |f: ElementFull| server_reads(f), i as int);
                        }
                        return Err(err);
                    },
                    Ok(None) => {},
                    Ok(Some(v)) => {
                    info.port = parse_int_or(v.as_str(), DEFAULT_PORT as u64, 0xffff) as u16;
                },
                }
            }
            assert(server_reads(elements_full(reply.elements@)[i as int]));
            i = i + 1;
        }
        assert(ev.take(n as int) =~= ev);
        Ok(info)
    }

    /// Encode as a `SetSDKTcpServer` request document.
    pub fn encode_request(&self, guid: &str) -> (res: Result<Vec<u8>, ProtoError>)
        ensures
            res matches Ok(b) && b@ == request_bytes(guid@, SdkMethod::SetSdkTcpServer, server_events(self@)),
    {
        let mut x = XmlWriter::new();
        let _ = self.write_body(&mut x);
        let body = x.into_string();
        proof {
            lemma_envelope_render(guid@, "in"@, SdkMethod::SetSdkTcpServer, None, server_events(self@));
        }
        encode_request(guid, SdkMethod::SetSdkTcpServer, body.as_str())
    }

    /// Encode as a `SetSDKTcpServer` reply document.
    pub fn encode_reply(&self, guid: &str, result: &SdkResult) -> (res: Result<Vec<u8>, ProtoError>)
        ensures
            res matches Ok(b) && b@ == reply_bytes(guid@, SdkMethod::SetSdkTcpServer, result@, server_events(self@)),
    {
        let mut x = XmlWriter::new();
        let _ = self.write_body(&mut x);
        let body = x.into_string();
        proof {
            lemma_envelope_render(guid@, "out"@, SdkMethod::SetSdkTcpServer, Some(result@), server_events(self@));
        }
        encode_reply(guid, SdkMethod::SetSdkTcpServer, result, body.as_str())
    }

    /// Decode a document into the body, first surfacing any device error.
    /// The bytes of a successful reply carrying a body decode to that body.
    pub fn decode(bytes: &[u8]) -> (res: Result<ServerInfo, ProtoError>)
        ensures
            decodes_to(bytes@, res, |f: ElementFull| server_reads(f), |v: ServerInfo, es: Seq<ElementView>| v@ == server_scan(es)),
            forall|g: Seq<char>, m: SdkMethod, d: ServerInfoView| #[trigger] reply_bytes(g, m, success_code(), server_events(d))
                == bytes@ ==> (res matches Ok(v) && v@ == d),
    {
        let reply = match decode_checked(bytes) {
            Ok(r) => r,
            Err(e) => {
                proof {
                    assert forall|g: Seq<char>, m: SdkMethod, d: ServerInfoView| #[trigger] reply_bytes(g, m, success_code(), server_events(d))
                        != bytes@ by {
                        if reply_bytes(g, m, success_code(), server_events(d)) == bytes@ {
                            lemma_server_wf(d);
                            lemma_envelope_reads_back(bytes@, g, "out"@, m, Some(success_code()), server_events(d));
                        }
                    }
                }
                return Err(e);
            },
        };
        let res = Self::parse_body(&reply);
        proof {
            lemma_elements_view_full(reply.elements@);
            assert forall|g: Seq<char>, m: SdkMethod, d: ServerInfoView| #[trigger] reply_bytes(g, m, success_code(), server_events(d))
                == bytes@ implies (res matches Ok(v) && v@ == d) by {
                lemma_server_wf(d);
                lemma_envelope_reads_back(bytes@, g, "out"@, m, Some(success_code()), server_events(d));
                reveal_strlit("out");
                lemma_server_roundtrip(g, "out"@, m, Some(success_code()), d);
            }
        }
        res
    }
}

/// Reading back the elements of a written body, in any request or reply
/// envelope, gives the body that was written.
pub proof fn lemma_server_roundtrip(
    guid: Seq<char>,
    tag: Seq<char>,
    method: SdkMethod,
    result: Option<Seq<char>>,
    d: ServerInfoView,
)
    requires
        tag == "in"@ || tag == "out"@,
    ensures
        server_scan(elements_of(envelope_events(guid, tag, method, result, server_events(d)))) == d,
{
    reveal_strlit("guid");
    reveal_strlit("host");
    reveal_strlit("in");
    reveal_strlit("out");
    reveal_strlit("port");
    reveal_strlit("sdk");
    reveal_strlit("server");
    let step = |d: ServerInfoView, e: ElementView| server_step(d, e);
    let body = server_events(d);
    let init = server_default();
    let h0: ElementView = ("sdk"@, seq![("guid"@, guid)]);
    let h1: ElementView = (tag, crate::sdk::envelope::method_attrs(method, result));
    lemma_envelope_elements(guid, tag, method, result, body);
    lemma_scan_append(init, seq![h0, h1], elements_of(body), step);
    lemma_scan_push(init, Seq::empty(), h0, step);
    lemma_scan_push(init, seq![h0], h1, step);
    assert(Seq::<ElementView>::empty().push(h0) =~= seq![h0]);
    assert(seq![h0].push(h1) =~= seq![h0, h1]);
    assert(scan(init, Seq::<ElementView>::empty(), step) == init);
    assert("sdk"@.len() == 3 && "server"@.len() == 6);
    assert("in"@.len() == 2 && "server"@.len() == 6);
    assert("out"@.len() == 3 && "server"@.len() == 6);
    assert(server_step(init, h0) == init);
    assert(server_step(init, h1) == init);
    assert(scan(init, seq![h0, h1], step) == init);
    assert(crate::sdk::xml::plain("host"@));
    assert(crate::sdk::xml::plain("port"@));
    assert("host"@[0] != "port"@[0]);
    lemma_attr_lookup(body[0]->Empty_1, 0);
    lemma_attr_lookup(body[0]->Empty_1, 1);
    crate::sdk::messages::lemma_int_or_dec(d.port as nat, DEFAULT_PORT as int, 0xffff);
    lemma_elements_push(Seq::<XmlEvent>::empty(), body[0]);
    assert(Seq::<XmlEvent>::empty().push(body[0]) =~= seq![body[0]]);
    assert(seq![body[0]] =~= body);
    assert(elements_of(Seq::<XmlEvent>::empty()) =~= Seq::<ElementView>::empty());
    let e0: ElementView = ("server"@, body[0]->Empty_1);
    assert(elements_of(body) =~= seq![e0]);
    lemma_scan_push(init, Seq::<ElementView>::empty(), e0, step);
    assert(Seq::<ElementView>::empty().push(e0) =~= seq![e0]);
    assert(scan(init, seq![e0], step) =~= d);
}


/// The body is well formed, and none of its elements is named like the
/// envelope's.
pub proof fn lemma_server_wf(d: ServerInfoView)
    ensures
        events_wf(server_events(d)),
        forall|k: int| 0 <= k < elements_of(server_events(d)).len() ==> !envelope_name(
            #[trigger] elements_of(server_events(d))[k].0,
        ),
{
    reveal_strlit("host");
    reveal_strlit("in");
    reveal_strlit("out");
    reveal_strlit("port");
    reveal_strlit("sdk");
    reveal_strlit("server");
    let body = server_events(d);
    assert forall|k: int| 0 <= k < body.len() implies (#[trigger] body[k] is Empty || body[k] is Text) by {}
    lemma_open_after_flat(Seq::empty(), body);
    assert(name_ok("host"@) && name_ok("port"@) && name_ok("server"@));
    assert("host"@[0] != "port"@[0]);
    assert forall|k: int| 0 <= k < body.len() implies event_ok(#[trigger] body[k]) by {
        if k == 0 { assert(keys_ok(body[0]->Empty_1)); }
    }
    lemma_elements_push(Seq::empty(), body[0]);
    assert(Seq::<XmlEvent>::empty().push(body[0]) =~= body);
    assert(elements_of(Seq::<XmlEvent>::empty()) =~= Seq::<ElementView>::empty());
    let els = elements_of(body);
    assert(els.len() == 1);
    assert(els[0].0 == "server"@);
}

/// The lookups reading the body makes on one element all succeed.
pub open spec fn server_reads(f: ElementFull) -> bool {
    if f.0 == "server"@ {
        readable(f, "host"@) && readable(f, "port"@)
    } else {
        true
    }
}

} // verus!
