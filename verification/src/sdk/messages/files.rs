//! `GetFiles` / `DeleteFiles`: the device's stored-file table.

use vstd::prelude::*;
use crate::sdk::xml::{cooked, elements_full, lemma_elements_view_full, lemma_reads_all_fails, readable, reads_all, ElementFull};
use crate::sdk::envelope::{envelope_name, lemma_envelope_reads_back};
use crate::sdk::xml::{events_wf, event_ok, keys_ok, lemma_open_after_flat, lemma_open_after_wrapped, lemma_open_after_append, name_ok};
use crate::error::ProtoError;
use crate::fmt::{dec_signed, i64_to_string, lemma_parse_dec_signed, parse_i64_or, parse_int_spec, trim};
use crate::sdk::envelope::{encode_reply, encode_request, envelope_events, lemma_envelope_elements,
    lemma_envelope_render, reply_bytes, request_bytes, SdkReply};
use crate::sdk::messages::{decode_checked, decodes_to, or_keep};
use crate::sdk::method::SdkMethod;
use crate::sdk::result::{success_code, SdkResult};
use crate::sdk::xml::{attr, attr_value, attrs_view, elements_of, elements_view, is_named, plain,
    lemma_attr_lookup, lemma_elements_append, lemma_elements_of_empties, lemma_elements_push, lemma_render_push,
    lemma_scan_append, lemma_scan_push, lemma_scan_take, render, scan, AttrsView, ElementView, XmlEvent,
    XmlWriter};

verus! {

/// One `<file>` entry.
#[derive(Debug, Clone, Default, PartialEq, Eq)]
pub struct FileInfo {
    pub name: String,
    pub size: i64,
    /// Bytes already on the device (nonzero mid-upload).
    pub exist_size: i64,
    pub md5: String,
    /// Firmware's file-type tag.
    pub file_type: String,
}

/// A [`FileInfo`] as plain values.
pub struct FileInfoView {
    pub name: Seq<char>,
    pub size: i64,
    pub exist_size: i64,
    pub md5: Seq<char>,
    pub file_type: Seq<char>,
}

impl View for FileInfo {
    type V = FileInfoView;

    open spec fn view(&self) -> FileInfoView {
        FileInfoView {
            name: self.name@,
            size: self.size,
            exist_size: self.exist_size,
            md5: self.md5@,
            file_type: self.file_type@,
        }
    }
}

/// The `GetFiles` reply: the device's file listing.
#[derive(Debug, Clone, Default, PartialEq, Eq)]
pub struct FileList {
    pub files: Vec<FileInfo>,
}

impl View for FileList {
    type V = Seq<FileInfoView>;

    open spec fn view(&self) -> Seq<FileInfoView> {
        self.files@.map_values(|f: FileInfo| f@)
    }
}

/// The attributes of one `<file>`: sizes in signed decimal.
pub open spec fn file_attrs(f: FileInfoView) -> AttrsView {
    seq![
        ("name"@, f.name),
        ("size"@, dec_signed(f.size as int)),
        ("existSize"@, dec_signed(f.exist_size as int)),
        ("md5"@, f.md5),
        ("type"@, f.file_type),
    ]
}

/// One `<file/>` element.
pub open spec fn file_event(f: FileInfoView) -> XmlEvent {
    XmlEvent::Empty("file"@, file_attrs(f))
}

/// The body's elements: one `<file/>` per entry inside `<files>`.
pub open spec fn file_list_events(fs: Seq<FileInfoView>) -> Seq<XmlEvent> {
    seq![XmlEvent::Start("files"@, Seq::empty())] + fs.map_values(|f: FileInfoView| file_event(f))
        + seq![XmlEvent::End("files"@)]
}

/// `cur` when the attribute is missing, else its lenient signed number, or
/// `default` when it does not parse.
pub open spec fn signed_or(cur: i64, v: Option<Seq<char>>, default: i64) -> i64 {
    match v {
        Some(s) => match parse_int_spec(trim(s), i64::MIN as int, i64::MAX as int) {
            Some(n) => n as i64,
            None => default,
        },
        None => cur,
    }
}

/// The entry a `<file>` element's attributes describe; missing attributes
/// read as empty or zero.
pub open spec fn file_of(a: AttrsView) -> FileInfoView {
    FileInfoView {
        name: or_keep(Seq::empty(), attr_value(a, "name"@)),
        size: signed_or(0, attr_value(a, "size"@), 0),
        exist_size: signed_or(0, attr_value(a, "existSize"@), 0),
        md5: or_keep(Seq::empty(), attr_value(a, "md5"@)),
        file_type: or_keep(Seq::empty(), attr_value(a, "type"@)),
    }
}

/// What one element contributes: each `<file>` appends an entry.
pub open spec fn file_list_step(fs: Seq<FileInfoView>, e: ElementView) -> Seq<FileInfoView> {
    if e.0 == "file"@ {
        fs.push(file_of(e.1))
    } else {
        fs
    }
}

/// The listing read from a document's elements.
pub open spec fn file_list_scan(es: Seq<ElementView>) -> Seq<FileInfoView> {
    scan(Seq::empty(), es, |fs: Seq<FileInfoView>, e: ElementView| file_list_step(fs, e))
}

impl FileList {
    /// Write the body's elements.
    pub fn write_body(&self, x: &mut XmlWriter) -> (res: Result<(), ProtoError>)
        ensures
            res is Ok,
            final(x)@ == old(x)@ + render(file_list_events(self@)),
    {
        let ghost start = x@;
        let ghost fs = self@;
        let ghost open = XmlEvent::Start("files"@, Seq::empty());
        let none: [(&str, &str); 0] = [];
        x.open("files", &none);
        proof {
            assert(attrs_view(none@) =~= Seq::<(Seq<char>, Seq<char>)>::empty());
            lemma_render_push(Seq::empty(), open);
            assert(Seq::<XmlEvent>::empty().push(open) =~= seq![open]);
            assert(render(Seq::<XmlEvent>::empty()) =~= Seq::<char>::empty());
            assert(fs.take(0).map_values(|f: FileInfoView| file_event(f)) =~= Seq::<XmlEvent>::empty());
            assert(seq![open] + Seq::<XmlEvent>::empty() =~= seq![open]);
        }
        let n = self.files.len();
        let mut i: usize = 0;
        while i < n
            invariant
                n == self.files@.len(),
                i <= n,
                fs == self@,
                open == XmlEvent::Start("files"@, Seq::empty()),
                x@ == start + render(seq![open] + fs.take(i as int).map_values(|f: FileInfoView| file_event(f))),
            decreases n - i,
        {
            let f = &self.files[i];
            let size = i64_to_string(f.size);
            let exist = i64_to_string(f.exist_size);
            let a = [
                ("name", f.name.as_str()),
                ("size", size.as_str()),
                ("existSize", exist.as_str()),
                ("md5", f.md5.as_str()),
                ("type", f.file_type.as_str()),
            ];
            x.empty("file", &a);
            proof {
                assert(fs[i as int] == f@);
                assert(attrs_view(a@) =~= file_attrs(f@));
                let pre = seq![open] + fs.take(i as int).map_values(|f: FileInfoView| file_event(f));
                lemma_render_push(pre, file_event(f@));
                assert(pre.push(file_event(f@)) =~= seq![open] + fs.take(i + 1).map_values(
                    |f: FileInfoView| file_event(f),
                ));
            }
            i = i + 1;
        }
        x.close("files");
        proof {
            let pre = seq![open] + fs.take(n as int).map_values(|f: FileInfoView| file_event(f));
            lemma_render_push(pre, XmlEvent::End("files"@));
            assert(fs.take(n as int) =~= fs);
            assert(pre.push(XmlEvent::End("files"@)) =~= file_list_events(fs));
        }
        Ok(())
    }

    /// Read the listing back out of a decoded envelope: one entry per `<file>`.
    pub fn parse_body(reply: &SdkReply) -> (res: Result<FileList, ProtoError>)
        ensures
            res is Ok <==> reads_all(elements_full(reply.elements@), |f: ElementFull| file_list_reads(f)),
            res matches Ok(v) ==> v@ == file_list_scan(elements_view(reply.elements@)),
            res matches Err(e) ==> e is Xml,
{
        let ghost ev = elements_view(reply.elements@);
        let ghost step = |fs: Seq<FileInfoView>, e: ElementView| file_list_step(fs, e);
        let mut list = FileList { files: Vec::new() };
        let n = reply.elements.len();
        let mut i: usize = 0;
        assert(ev.take(0) =~= Seq::<ElementView>::empty());
        assert(list@ =~= Seq::<FileInfoView>::empty());
        while i < n
            invariant
                n == reply.elements@.len(),
                i <= n,
                ev == elements_view(reply.elements@),
                step == (|fs: Seq<FileInfoView>, e: ElementView| file_list_step(fs, e)),
                list@ == scan(Seq::empty(), ev.take(i as int), step),
                forall|k: int| 0 <= k < i ==> file_list_reads(#[trigger] elements_full(reply.elements@)[k]),
            decreases n - i,
        {
            let e = &reply.elements[i];
            proof {
                lemma_scan_take(Seq::<FileInfoView>::empty(), ev, i as int, step);
                assert(ev[i as int] == e@);
            }
            if is_named(e, "file") {
                let mut f = FileInfo {
                    name: String::new(),
                    size: 0,
                    exist_size: 0,
                    md5: String::new(),
                    file_type: String::new(),
                };
                match attr(e, "name") {
                    Err(err) => {
                        proof {
                            assert(!file_list_reads(elements_full(reply.elements@)[i as int]));
                            lemma_reads_all_fails(elements_full(reply.elements@), |f: ElementFull| file_list_reads(f), i as int);
                        }
                        return Err(err);
                    },
                    Ok(None) => {},
                    Ok(Some(v)) => {
                    f.name = v;
                },
                }
                match attr(e, "size") {
                    Err(err) => {
                        proof {
                            assert(!file_list_reads(elements_full(reply.elements@)[i as int]));
                            lemma_reads_all_fails(elements_full(reply.elements@), |f: ElementFull| file_list_reads(f), i as int);
                        }
                        return Err(err);
                    },
                    Ok(None) => {},
                    Ok(Some(v)) => {
                    f.size = parse_i64_or(v.as_str(), 0);
                },
                }
                match attr(e, "existSize") {
                    Err(err) => {
                        proof {
                            assert(!file_list_reads(elements_full(reply.elements@)[i as int]));
                            lemma_reads_all_fails(elements_full(reply.elements@), |f: ElementFull| file_list_reads(f), i as int);
                        }
                        return Err(err);
                    },
                    Ok(None) => {},
                    Ok(Some(v)) => {
                    f.exist_size = parse_i64_or(v.as_str(), 0);
                },
                }
                match attr(e, "md5") {
                    Err(err) => {
                        proof {
                            assert(!file_list_reads(elements_full(reply.elements@)[i as int]));
                            lemma_reads_all_fails(elements_full(reply.elements@), |f: ElementFull| file_list_reads(f), i as int);
                        }
                        return Err(err);
                    },
                    Ok(None) => {},
                    Ok(Some(v)) => {
                    f.md5 = v;
                },
                }
                match attr(e, "type") {
                    Err(err) => {
                        proof {
                            assert(!file_list_reads(elements_full(reply.elements@)[i as int]));
                            lemma_reads_all_fails(elements_full(reply.elements@), |f: ElementFull| file_list_reads(f), i as int);
                        }
                        return Err(err);
                    },
                    Ok(None) => {},
                    Ok(Some(v)) => {
                    f.file_type = v;
                },
                }
                let ghost before = list.files@;
                list.files.push(f);
                proof {
                    assert(list.files@.map_values(|f: FileInfo| f@) =~= before.map_values(|f: FileInfo| f@).push(
                        file_of(e@.1),
                    ));
                }
            }
            assert(file_list_reads(elements_full(reply.elements@)[i as int]));
            i = i + 1;
        }
        assert(ev.take(n as int) =~= ev);
        Ok(list)
    }

    /// Encode as a `GetFiles` reply document, as a device sends it.
    pub fn encode_reply(&self, guid: &str, result: &SdkResult) -> (res: Result<Vec<u8>, ProtoError>)
        ensures
            res matches Ok(b) && b@ == reply_bytes(guid@, SdkMethod::GetFiles, result@, file_list_events(self@)),
    {
        let mut x = XmlWriter::new();
        let _ = self.write_body(&mut x);
        let body = x.into_string();
        proof {
            lemma_envelope_render(guid@, "out"@, SdkMethod::GetFiles, Some(result@), file_list_events(self@));
        }
        encode_reply(guid, SdkMethod::GetFiles, result, body.as_str())
    }

    /// Decode a document into the listing, first surfacing any device error.
    /// The bytes of a successful reply carrying a body decode to that body.
    pub fn decode(bytes: &[u8]) -> (res: Result<FileList, ProtoError>)
        ensures
            decodes_to(bytes@, res, |f: ElementFull| file_list_reads(f), |v: FileList, es: Seq<ElementView>| v@ == file_list_scan(es)),
            forall|g: Seq<char>, m: SdkMethod, d: Seq<FileInfoView>| #[trigger] reply_bytes(g, m, success_code(), file_list_events(d))
                == bytes@ ==> (res matches Ok(v) && v@ == d),
    {
        let reply = match decode_checked(bytes) {
            Ok(r) => r,
            Err(e) => {
                proof {
                    assert forall|g: Seq<char>, m: SdkMethod, d: Seq<FileInfoView>| #[trigger] reply_bytes(g, m, success_code(), file_list_events(d))
                        != bytes@ by {
                        if reply_bytes(g, m, success_code(), file_list_events(d)) == bytes@ {
                            lemma_file_list_wf(d);
                            lemma_envelope_reads_back(bytes@, g, "out"@, m, Some(success_code()), file_list_events(d));
                        }
                    }
                }
                return Err(e);
            },
        };
        let res = Self::parse_body(&reply);
        proof {
            lemma_elements_view_full(reply.elements@);
            lemma_elements_view_full(reply.elements@);
            assert forall|g: Seq<char>, m: SdkMethod, d: Seq<FileInfoView>| #[trigger] reply_bytes(g, m, success_code(), file_list_events(d))
                == bytes@ implies (res matches Ok(v) && v@ == d) by {
                lemma_file_list_wf(d);
                lemma_envelope_reads_back(bytes@, g, "out"@, m, Some(success_code()), file_list_events(d));
                reveal_strlit("out");
                lemma_file_list_roundtrip(g, "out"@, m, Some(success_code()), d);
            }
        }
        res
    }
}

/// A written entry's attributes read back as the entry.
pub proof fn lemma_file_of_attrs(f: FileInfoView)
    ensures
        file_of(file_attrs(f)) == f,
{
    reveal_strlit("name");
    reveal_strlit("size");
    reveal_strlit("existSize");
    reveal_strlit("md5");
    reveal_strlit("type");
    let a = file_attrs(f);
    assert(plain("name"@) && plain("size"@) && plain("existSize"@) && plain("md5"@) && plain("type"@));
    assert("name"@[0] != "size"@[0]);
    assert("name"@[0] != "type"@[0]);
    assert("size"@[0] != "type"@[0]);
    assert("size"@.len() != "existSize"@.len());
    assert("name"@.len() != "existSize"@.len());
    assert("md5"@.len() != "name"@.len());
    lemma_attr_lookup(a, 0);
    lemma_attr_lookup(a, 1);
    lemma_attr_lookup(a, 2);
    lemma_attr_lookup(a, 3);
    lemma_attr_lookup(a, 4);
    lemma_parse_dec_signed(f.size as int, i64::MIN as int, i64::MAX as int);
    lemma_parse_dec_signed(f.exist_size as int, i64::MIN as int, i64::MAX as int);
}

proof fn lemma_scan_file_elements(fs: Seq<FileInfoView>, k: int)
    requires
        0 <= k <= fs.len(),
    ensures
        scan(
            Seq::empty(),
            fs.map_values(|f: FileInfoView| ("file"@, file_attrs(f))).take(k),
            |l: Seq<FileInfoView>, e: ElementView| file_list_step(l, e),
        ) == fs.take(k),
    decreases k,
{
    let es = fs.map_values(|f: FileInfoView| ("file"@, file_attrs(f)));
    if k == 0 {
        assert(es.take(0) =~= Seq::<ElementView>::empty());
        assert(fs.take(0) =~= Seq::<FileInfoView>::empty());
    } else {
        lemma_scan_file_elements(fs, k - 1);
        lemma_scan_take(Seq::<FileInfoView>::empty(), es, k - 1, |l: Seq<FileInfoView>, e: ElementView| file_list_step(l, e));
        lemma_file_of_attrs(fs[k - 1]);
        assert(fs.take(k - 1).push(fs[k - 1]) =~= fs.take(k));
    }
}

/// Reading back the elements of a written listing, in any request or reply
/// envelope, gives the listing that was written.
pub proof fn lemma_file_list_roundtrip(
    guid: Seq<char>,
    tag: Seq<char>,
    method: SdkMethod,
    result: Option<Seq<char>>,
    fs: Seq<FileInfoView>,
)
    requires
        tag == "in"@ || tag == "out"@,
    ensures
        file_list_scan(elements_of(envelope_events(guid, tag, method, result, file_list_events(fs)))) == fs,
{
    reveal_strlit("sdk");
    reveal_strlit("in");
    reveal_strlit("out");
    reveal_strlit("files");
    reveal_strlit("file");
    let step = |l: Seq<FileInfoView>, e: ElementView| file_list_step(l, e);
    let init = Seq::<FileInfoView>::empty();
    let open = XmlEvent::Start("files"@, Seq::empty());
    let close = XmlEvent::End("files"@);
    let fevs = fs.map_values(|f: FileInfoView| file_event(f));
    let body = file_list_events(fs);
    let h0: ElementView = ("sdk"@, seq![("guid"@, guid)]);
    let h1: ElementView = (tag, crate::sdk::envelope::method_attrs(method, result));
    let h2: ElementView = ("files"@, Seq::empty());
    lemma_envelope_elements(guid, tag, method, result, body);
    lemma_elements_append(seq![open], fevs);
    lemma_elements_append(seq![open] + fevs, seq![close]);
    lemma_elements_push(Seq::empty(), open);
    lemma_elements_push(Seq::empty(), close);
    assert(Seq::<XmlEvent>::empty().push(open) =~= seq![open]);
    assert(Seq::<XmlEvent>::empty().push(close) =~= seq![close]);
    assert(elements_of(Seq::<XmlEvent>::empty()) =~= Seq::<ElementView>::empty());
    assert forall|i: int| 0 <= i < fevs.len() implies #[trigger] fevs[i] is Empty by {}
    lemma_elements_of_empties(fevs);
    let fes = fs.map_values(|f: FileInfoView| ("file"@, file_attrs(f)));
    assert(fevs.map_values(|e: XmlEvent| (e->Empty_0, e->Empty_1)) =~= fes);
    assert(elements_of(body) =~= seq![h2] + fes);
    assert(seq![h0, h1] + elements_of(body) =~= seq![h0, h1, h2] + fes);
    lemma_scan_append(init, seq![h0, h1, h2], fes, step);
    lemma_scan_push(init, Seq::empty(), h0, step);
    lemma_scan_push(init, seq![h0], h1, step);
    lemma_scan_push(init, seq![h0, h1], h2, step);
    assert(Seq::<ElementView>::empty().push(h0) =~= seq![h0]);
    assert(seq![h0].push(h1) =~= seq![h0, h1]);
    assert(seq![h0, h1].push(h2) =~= seq![h0, h1, h2]);
    assert("sdk"@.len() == 3 && "in"@.len() == 2 && "out"@.len() == 3 && "files"@.len() == 5 && "file"@.len() == 4);
    assert(scan(init, Seq::<ElementView>::empty(), step) == init);
    assert(scan(init, seq![h0, h1, h2], step) == init);
    lemma_scan_file_elements(fs, fs.len() as int);
    assert(fes.take(fs.len() as int) =~= fes);
    assert(fs.take(fs.len() as int) =~= fs);
}

/// Body-less `GetFiles` request.
#[derive(Debug, Clone, Copy, PartialEq, Eq, Default)]
pub struct GetFiles;

impl GetFiles {
    /// Encode as a request document.
    pub fn encode_request(&self, guid: &str) -> (res: Result<Vec<u8>, ProtoError>)
        ensures
            res matches Ok(b) && b@ == request_bytes(guid@, SdkMethod::GetFiles, Seq::empty()),
    {
        proof {
            reveal_strlit("");
            lemma_envelope_render(guid@, "in"@, SdkMethod::GetFiles, None, Seq::empty());
        }
        encode_request(guid, SdkMethod::GetFiles, "")
    }

    /// Decode a document, surfacing any device error.
    pub fn decode(bytes: &[u8]) -> (res: Result<GetFiles, ProtoError>)
        ensures
            decodes_to(bytes@, res, |f: ElementFull| true, |v: GetFiles, es: Seq<ElementView>| true),
    {
        match decode_checked(bytes) {
            Ok(_) => Ok(GetFiles),
            Err(e) => Err(e),
        }
    }
}

/// The `DeleteFiles` request: names to remove.
#[derive(Debug, Clone, Default, PartialEq, Eq)]
pub struct DeleteFiles {
    pub names: Vec<String>,
}

impl View for DeleteFiles {
    type V = Seq<Seq<char>>;

    open spec fn view(&self) -> Seq<Seq<char>> {
        self.names@.map_values(|n: String| n@)
    }
}

/// One `<file name/>` element.
pub open spec fn name_event(n: Seq<char>) -> XmlEvent {
    XmlEvent::Empty("file"@, seq![("name"@, n)])
}

/// The body's elements: one `<file name/>` per name inside `<files>`.
pub open spec fn delete_files_events(ns: Seq<Seq<char>>) -> Seq<XmlEvent> {
    seq![XmlEvent::Start("files"@, Seq::empty())] + ns.map_values(|n: Seq<char>| name_event(n))
        + seq![XmlEvent::End("files"@)]
}

/// What one element contributes: each `<file>` with a name appends it.
pub open spec fn delete_files_step(ns: Seq<Seq<char>>, e: ElementView) -> Seq<Seq<char>> {
    if e.0 == "file"@ {
        match attr_value(e.1, "name"@) {
            Some(v) => ns.push(v),
            None => ns,
        }
    } else {
        ns
    }
}

/// The names read from a document's elements.
pub open spec fn delete_files_scan(es: Seq<ElementView>) -> Seq<Seq<char>> {
    scan(Seq::empty(), es, |ns: Seq<Seq<char>>, e: ElementView| delete_files_step(ns, e))
}

impl DeleteFiles {
    /// Build a delete request from a set of file names.
    pub fn new(names: &[&str]) -> (d: DeleteFiles)
        ensures
            d@ == names@.map_values(|n: &str| n@),
    {
        let mut out: Vec<String> = Vec::new();
        let mut i: usize = 0;
        while i < names.len()
            invariant
                i <= names@.len(),
                out@.map_values(|n: String| n@) == names@.take(i as int).map_values(|n: &str| n@),
            decreases names@.len() - i,
        {
            let ghost before = out@;
            out.push(String::from_str(names[i]));
            proof {
                assert(out@.map_values(|n: String| n@) =~= before.map_values(|n: String| n@).push(names@[i as int]@));
                assert(names@.take(i + 1).map_values(|n: &str| n@) =~= names@.take(i as int).map_values(|n: &str| n@).push(names@[i as int]@));
            }
            i = i + 1;
        }
        assert(names@.take(names@.len() as int) =~= names@);
        DeleteFiles { names: out }
    }

    /// Write the body's elements.
    pub fn write_body(&self, x: &mut XmlWriter) -> (res: Result<(), ProtoError>)
        ensures
            res is Ok,
            final(x)@ == old(x)@ + render(delete_files_events(self@)),
    {
        let ghost start = x@;
        let ghost ns = self@;
        let ghost open = XmlEvent::Start("files"@, Seq::empty());
        let none: [(&str, &str); 0] = [];
        x.open("files", &none);
        proof {
            assert(attrs_view(none@) =~= Seq::<(Seq<char>, Seq<char>)>::empty());
            lemma_render_push(Seq::empty(), open);
            assert(Seq::<XmlEvent>::empty().push(open) =~= seq![open]);
            assert(render(Seq::<XmlEvent>::empty()) =~= Seq::<char>::empty());
            assert(ns.take(0).map_values(|n: Seq<char>| name_event(n)) =~= Seq::<XmlEvent>::empty());
            assert(seq![open] + Seq::<XmlEvent>::empty() =~= seq![open]);
        }
        let n = self.names.len();
        let mut i: usize = 0;
        while i < n
            invariant
                n == self.names@.len(),
                i <= n,
                ns == self@,
                open == XmlEvent::Start("files"@, Seq::empty()),
                x@ == start + render(seq![open] + ns.take(i as int).map_values(|n: Seq<char>| name_event(n))),
            decreases n - i,
        {
            let a = [("name", self.names[i].as_str())];
            x.empty("file", &a);
            proof {
                assert(ns[i as int] == self.names@[i as int]@);
                assert(attrs_view(a@) =~= seq![("name"@, ns[i as int])]);
                let pre = seq![open] + ns.take(i as int).map_values(|n: Seq<char>| name_event(n));
                lemma_render_push(pre, name_event(ns[i as int]));
                assert(pre.push(name_event(ns[i as int])) =~= seq![open] + ns.take(i + 1).map_values(
                    |n: Seq<char>| name_event(n),
                ));
            }
            i = i + 1;
        }
        x.close("files");
        proof {
            let pre = seq![open] + ns.take(n as int).map_values(|n: Seq<char>| name_event(n));
            lemma_render_push(pre, XmlEvent::End("files"@));
            assert(ns.take(n as int) =~= ns);
            assert(pre.push(XmlEvent::End("files"@)) =~= delete_files_events(ns));
        }
        Ok(())
    }

    /// Read the names back out of a decoded envelope: one per named `<file>`.
    pub fn parse_body(reply: &SdkReply) -> (res: Result<DeleteFiles, ProtoError>)
        ensures
            res is Ok <==> reads_all(elements_full(reply.elements@), |f: ElementFull| delete_files_reads(f)),
            res matches Ok(v) ==> v@ == delete_files_scan(elements_view(reply.elements@)),
            res matches Err(e) ==> e is Xml,
{
        let ghost ev = elements_view(reply.elements@);
        let ghost step = |ns: Seq<Seq<char>>, e: ElementView| delete_files_step(ns, e);
        let mut names: Vec<String> = Vec::new();
        let n = reply.elements.len();
        let mut i: usize = 0;
        assert(ev.take(0) =~= Seq::<ElementView>::empty());
        assert(names@.map_values(|n: String| n@) =~= Seq::<Seq<char>>::empty());
        while i < n
            invariant
                n == reply.elements@.len(),
                i <= n,
                ev == elements_view(reply.elements@),
                step == (|ns: Seq<Seq<char>>, e: ElementView| delete_files_step(ns, e)),
                names@.map_values(|n: String| n@) == scan(Seq::empty(), ev.take(i as int), step),
                forall|k: int| 0 <= k < i ==> delete_files_reads(#[trigger] elements_full(reply.elements@)[k]),
            decreases n - i,
        {
            let e = &reply.elements[i];
            proof {
                lemma_scan_take(Seq::<Seq<char>>::empty(), ev, i as int, step);
                assert(ev[i as int] == e@);
            }
            if is_named(e, "file") {
                match attr(e, "name") {
                    Err(err) => {
                        proof {
                            assert(!delete_files_reads(elements_full(reply.elements@)[i as int]));
                            lemma_reads_all_fails(elements_full(reply.elements@), |f: ElementFull| delete_files_reads(f), i as int);
                        }
                        return Err(err);
                    },
                    Ok(None) => {},
                    Ok(Some(v)) => {
                    let ghost before = names@;
                    names.push(v);
                    proof {
                        assert(names@.map_values(|n: String| n@) =~= before.map_values(|n: String| n@).push(v@));
                    }
                },
                }
            }
            assert(delete_files_reads(elements_full(reply.elements@)[i as int]));
            i = i + 1;
        }
        assert(ev.take(n as int) =~= ev);
        Ok(DeleteFiles { names })
    }

    /// Encode as a `DeleteFiles` request document.
    pub fn encode_request(&self, guid: &str) -> (res: Result<Vec<u8>, ProtoError>)
        ensures
            res matches Ok(b) && b@ == request_bytes(guid@, SdkMethod::DeleteFiles, delete_files_events(self@)),
    {
        let mut x = XmlWriter::new();
        let _ = self.write_body(&mut x);
        let body = x.into_string();
        proof {
            lemma_envelope_render(guid@, "in"@, SdkMethod::DeleteFiles, None, delete_files_events(self@));
        }
        encode_request(guid, SdkMethod::DeleteFiles, body.as_str())
    }

    /// Decode a document into the request, first surfacing any device error.
    /// The bytes of a successful reply carrying a body decode to that body.
    pub fn decode(bytes: &[u8]) -> (res: Result<DeleteFiles, ProtoError>)
        ensures
            decodes_to(bytes@, res, |f: ElementFull| delete_files_reads(f), |v: DeleteFiles, es: Seq<ElementView>| v@ == delete_files_scan(es)),
            forall|g: Seq<char>, m: SdkMethod, d: Seq<Seq<char>>| #[trigger] reply_bytes(g, m, success_code(), delete_files_events(d))
                == bytes@ ==> (res matches Ok(v) && v@ == d),
    {
        let reply = match decode_checked(bytes) {
            Ok(r) => r,
            Err(e) => {
                proof {
                    assert forall|g: Seq<char>, m: SdkMethod, d: Seq<Seq<char>>| #[trigger] reply_bytes(g, m, success_code(), delete_files_events(d))
                        != bytes@ by {
                        if reply_bytes(g, m, success_code(), delete_files_events(d)) == bytes@ {
                            lemma_delete_files_wf(d);
                            lemma_envelope_reads_back(bytes@, g, "out"@, m, Some(success_code()), delete_files_events(d));
                        }
                    }
                }
                return Err(e);
            },
        };
        let res = Self::parse_body(&reply);
        proof {
            assert forall|g: Seq<char>, m: SdkMethod, d: Seq<Seq<char>>| #[trigger] reply_bytes(g, m, success_code(), delete_files_events(d))
                == bytes@ implies (res matches Ok(v) && v@ == d) by {
                lemma_delete_files_wf(d);
                lemma_envelope_reads_back(bytes@, g, "out"@, m, Some(success_code()), delete_files_events(d));
                reveal_strlit("out");
                lemma_delete_files_roundtrip(g, "out"@, m, Some(success_code()), d);
            }
        }
        res
    }
}

proof fn lemma_scan_name_elements(ns: Seq<Seq<char>>, k: int)
    requires
        0 <= k <= ns.len(),
    ensures
        scan(
            Seq::empty(),
            ns.map_values(|n: Seq<char>| ("file"@, seq![("name"@, n)])).take(k),
            |l: Seq<Seq<char>>, e: ElementView| delete_files_step(l, e),
        ) == ns.take(k),
    decreases k,
{
    let es = ns.map_values(|n: Seq<char>| ("file"@, seq![("name"@, n)]));
    if k == 0 {
        assert(es.take(0) =~= Seq::<ElementView>::empty());
        assert(ns.take(0) =~= Seq::<Seq<char>>::empty());
    } else {
        reveal_strlit("name");
        lemma_scan_name_elements(ns, k - 1);
        lemma_scan_take(Seq::<Seq<char>>::empty(), es, k - 1, |l: Seq<Seq<char>>, e: ElementView| delete_files_step(l, e));
        assert(plain("name"@));
        lemma_attr_lookup(seq![("name"@, ns[k - 1])], 0);
        assert(ns.take(k - 1).push(ns[k - 1]) =~= ns.take(k));
    }
}

/// Reading back the elements of a written delete request, in any envelope,
/// gives the names that were written.
pub proof fn lemma_delete_files_roundtrip(
    guid: Seq<char>,
    tag: Seq<char>,
    method: SdkMethod,
    result: Option<Seq<char>>,
    ns: Seq<Seq<char>>,
)
    requires
        tag == "in"@ || tag == "out"@,
    ensures
        delete_files_scan(elements_of(envelope_events(guid, tag, method, result, delete_files_events(ns)))) == ns,
{
    reveal_strlit("sdk");
    reveal_strlit("in");
    reveal_strlit("out");
    reveal_strlit("files");
    reveal_strlit("file");
    let step = |l: Seq<Seq<char>>, e: ElementView| delete_files_step(l, e);
    let init = Seq::<Seq<char>>::empty();
    let open = XmlEvent::Start("files"@, Seq::empty());
    let close = XmlEvent::End("files"@);
    let nevs = ns.map_values(|n: Seq<char>| name_event(n));
    let body = delete_files_events(ns);
    let h0: ElementView = ("sdk"@, seq![("guid"@, guid)]);
    let h1: ElementView = (tag, crate::sdk::envelope::method_attrs(method, result));
    let h2: ElementView = ("files"@, Seq::empty());
    lemma_envelope_elements(guid, tag, method, result, body);
    lemma_elements_append(seq![open], nevs);
    lemma_elements_append(seq![open] + nevs, seq![close]);
    lemma_elements_push(Seq::empty(), open);
    lemma_elements_push(Seq::empty(), close);
    assert(Seq::<XmlEvent>::empty().push(open) =~= seq![open]);
    assert(Seq::<XmlEvent>::empty().push(close) =~= seq![close]);
    assert(elements_of(Seq::<XmlEvent>::empty()) =~= Seq::<ElementView>::empty());
    assert forall|i: int| 0 <= i < nevs.len() implies #[trigger] nevs[i] is Empty by {}
    lemma_elements_of_empties(nevs);
    let nes = ns.map_values(|n: Seq<char>| ("file"@, seq![("name"@, n)]));
    assert(nevs.map_values(|e: XmlEvent| (e->Empty_0, e->Empty_1)) =~= nes);
    assert(elements_of(body) =~= seq![h2] + nes);
    assert(seq![h0, h1] + elements_of(body) =~= seq![h0, h1, h2] + nes);
    lemma_scan_append(init, seq![h0, h1, h2], nes, step);
    lemma_scan_push(init, Seq::empty(), h0, step);
    lemma_scan_push(init, seq![h0], h1, step);
    lemma_scan_push(init, seq![h0, h1], h2, step);
    assert(Seq::<ElementView>::empty().push(h0) =~= seq![h0]);
    assert(seq![h0].push(h1) =~= seq![h0, h1]);
    assert(seq![h0, h1].push(h2) =~= seq![h0, h1, h2]);
    assert("sdk"@.len() == 3 && "in"@.len() == 2 && "out"@.len() == 3 && "files"@.len() == 5 && "file"@.len() == 4);
    assert(scan(init, Seq::<ElementView>::empty(), step) == init);
    assert(scan(init, seq![h0, h1, h2], step) == init);
    lemma_scan_name_elements(ns, ns.len() as int);
    assert(nes.take(ns.len() as int) =~= nes);
    assert(ns.take(ns.len() as int) =~= ns);
}


/// The list body is well formed, and none of its elements is named like the
/// envelope's.
pub proof fn lemma_file_list_wf(fs: Seq<FileInfoView>)
    ensures
        events_wf(file_list_events(fs)),
        forall|k: int| 0 <= k < elements_of(file_list_events(fs)).len() ==> !envelope_name(
            #[trigger] elements_of(file_list_events(fs))[k].0,
        ),
{
    reveal_strlit("sdk");
    reveal_strlit("in");
    reveal_strlit("out");
    reveal_strlit("files");
    reveal_strlit("file");
    reveal_strlit("name");
    reveal_strlit("size");
    reveal_strlit("existSize");
    reveal_strlit("md5");
    reveal_strlit("type");
    let mid = fs.map_values(|f: FileInfoView| file_event(f));
    let body = file_list_events(fs);
    assert forall|k: int| 0 <= k < mid.len() implies (#[trigger] mid[k] is Empty || mid[k] is Text) by {}
    lemma_open_after_wrapped(Seq::empty(), "files"@, Seq::empty(), mid);
    assert(name_ok("files"@) && name_ok("file"@) && name_ok("name"@) && name_ok("size"@));
    assert(name_ok("existSize"@) && name_ok("md5"@) && name_ok("type"@));
    assert("name"@[0] != "size"@[0] && "name"@[0] != "type"@[0] && "size"@[0] != "type"@[0]);
    assert forall|k: int| 0 <= k < body.len() implies event_ok(#[trigger] body[k]) by {
        if 0 < k < body.len() - 1 {
            assert(body[k] == mid[k - 1]);
            assert(keys_ok(file_attrs(fs[k - 1])));
        }
    }
    let open = seq![XmlEvent::Start("files"@, Seq::<(Seq<char>, Seq<char>)>::empty())];
    let close = seq![XmlEvent::End("files"@)];
    lemma_elements_append(open, mid);
    lemma_elements_append(open + mid, close);
    lemma_elements_push(Seq::empty(), open[0]);
    assert(Seq::<XmlEvent>::empty().push(open[0]) =~= open);
    lemma_elements_push(Seq::empty(), close[0]);
    assert(Seq::<XmlEvent>::empty().push(close[0]) =~= close);
    assert(elements_of(Seq::<XmlEvent>::empty()) =~= Seq::<ElementView>::empty());
    lemma_elements_of_empties(mid);
    assert(open + mid + close =~= body);
    let els = elements_of(body);
    assert forall|k: int| 0 <= k < els.len() implies !envelope_name(#[trigger] els[k].0) by {
        let eo = elements_of(open);
        let ei = elements_of(mid);
        if k < eo.len() {
            assert(els[k] == eo[k]);
        } else if k < eo.len() + ei.len() {
            assert(els[k] == ei[k - eo.len()]);
            assert(ei[k - eo.len()].0 == "file"@);
        }
    }
}

/// The delete body is well formed, and none of its elements is named like
/// the envelope's.
pub proof fn lemma_delete_files_wf(ns: Seq<Seq<char>>)
    ensures
        events_wf(delete_files_events(ns)),
        forall|k: int| 0 <= k < elements_of(delete_files_events(ns)).len() ==> !envelope_name(
            #[trigger] elements_of(delete_files_events(ns))[k].0,
        ),
{
    reveal_strlit("sdk");
    reveal_strlit("in");
    reveal_strlit("out");
    reveal_strlit("files");
    reveal_strlit("file");
    reveal_strlit("name");
    let mid = ns.map_values(|n: Seq<char>| name_event(n));
    let body = delete_files_events(ns);
    assert forall|k: int| 0 <= k < mid.len() implies (#[trigger] mid[k] is Empty || mid[k] is Text) by {}
    lemma_open_after_wrapped(Seq::empty(), "files"@, Seq::empty(), mid);
    assert(name_ok("files"@) && name_ok("file"@) && name_ok("name"@));
    assert forall|k: int| 0 <= k < body.len() implies event_ok(#[trigger] body[k]) by {
        if 0 < k < body.len() - 1 {
            assert(body[k] == mid[k - 1]);
            assert(keys_ok(seq![("name"@, ns[k - 1])]));
        }
    }
    let open = seq![XmlEvent::Start("files"@, Seq::<(Seq<char>, Seq<char>)>::empty())];
    let close = seq![XmlEvent::End("files"@)];
    lemma_elements_append(open, mid);
    lemma_elements_append(open + mid, close);
    lemma_elements_push(Seq::empty(), open[0]);
    assert(Seq::<XmlEvent>::empty().push(open[0]) =~= open);
    lemma_elements_push(Seq::empty(), close[0]);
    assert(Seq::<XmlEvent>::empty().push(close[0]) =~= close);
    assert(elements_of(Seq::<XmlEvent>::empty()) =~= Seq::<ElementView>::empty());
    lemma_elements_of_empties(mid);
    assert(open + mid + close =~= body);
    let els = elements_of(body);
    assert forall|k: int| 0 <= k < els.len() implies !envelope_name(#[trigger] els[k].0) by {
        let eo = elements_of(open);
        let ei = elements_of(mid);
        if k < eo.len() {
            assert(els[k] == eo[k]);
        } else if k < eo.len() + ei.len() {
            assert(els[k] == ei[k - eo.len()]);
            assert(ei[k - eo.len()].0 == "file"@);
        }
    }
}

/// The lookups reading the body makes on one element all succeed.
pub open spec fn file_list_reads(f: ElementFull) -> bool {
    if f.0 == "file"@ {
        readable(f, "name"@) && readable(f, "size"@) && readable(f, "existSize"@) && readable(f, "md5"@) && readable(f, "type"@)
    } else {
        true
    }
}

/// The lookups reading the body makes on one element all succeed.
pub open spec fn delete_files_reads(f: ElementFull) -> bool {
    if f.0 == "file"@ {
        readable(f, "name"@)
    } else {
        true
    }
}

} // verus!
