//! XML writing and element scanning for SDK documents.
//!
//! [`XmlWriter`] emits, through `quick_xml`'s writer, the handful of shapes
//! the SDK uses — the declaration, self-closing attribute elements,
//! open/close pairs, text — escaping every attribute value and text node.
//! Reading goes through `quick_xml`'s reader and hands
//! the start and empty elements of a reply, in document order, to the
//! message bodies, which match on element names and pull the attributes they
//! care about, the lenient scan-for-known-tags parsing the firmware tolerates.

use vstd::prelude::*;
use crate::error::ProtoError;
use crate::fmt::str_eq;
use quick_xml::events::{BytesDecl, BytesEnd, BytesStart, BytesText, Event};
pub use crate::fmt::{bool_str, parse_bool};

verus! {

/// Attribute-value and text escaping as `quick_xml::escape::escape` does it:
/// `<`, `>`, `&`, `'` and `"` become the predefined entities; every other
/// character is kept.
pub open spec fn esc(s: Seq<char>) -> Seq<char>
    decreases s.len(),
{
    if s.len() == 0 {
        Seq::empty()
    } else {
        esc(s.drop_last()) + esc_char(s.last())
    }
}

/// The escaped form of one character.
pub open spec fn esc_char(c: char) -> Seq<char> {
    if c == '<' {
        seq!['&', 'l', 't', ';']
    } else if c == '>' {
        seq!['&', 'g', 't', ';']
    } else if c == '&' {
        seq!['&', 'a', 'm', 'p', ';']
    } else if c == '\'' {
        seq!['&', 'a', 'p', 'o', 's', ';']
    } else if c == '"' {
        seq!['&', 'q', 'u', 'o', 't', ';']
    } else {
        seq![c]
    }
}

/// An attribute list as plain values.
pub type AttrsView = Seq<(Seq<char>, Seq<char>)>;

/// The plain-value form of borrowed attribute pairs.
pub open spec fn attrs_view(a: Seq<(&str, &str)>) -> AttrsView {
    a.map_values(|p: (&str, &str)| (p.0@, p.1@))
}

/// The text of an attribute list: ` key="escaped value"` for each pair.
pub open spec fn attr_text(a: AttrsView) -> Seq<char>
    decreases a.len(),
{
    if a.len() == 0 {
        Seq::empty()
    } else {
        attr_text(a.drop_last()) + seq![' '] + a.last().0 + seq!['=', '"'] + esc(a.last().1)
            + seq!['"']
    }
}

/// One piece of an XML document as plain values.
pub enum XmlEvent {
    /// `<name attrs>`
    Start(Seq<char>, AttrsView),
    /// `<name attrs/>`
    Empty(Seq<char>, AttrsView),
    /// `</name>`
    End(Seq<char>),
    /// Escaped character data.
    Text(Seq<char>),
    /// A fragment inserted verbatim.
    Raw(Seq<char>),
}

/// The text one event is written as.
pub open spec fn event_text(e: XmlEvent) -> Seq<char> {
    match e {
        XmlEvent::Start(n, a) => seq!['<'] + n + attr_text(a) + seq!['>'],
        XmlEvent::Empty(n, a) => seq!['<'] + n + attr_text(a) + seq!['/', '>'],
        XmlEvent::End(n) => seq!['<', '/'] + n + seq!['>'],
        XmlEvent::Text(t) => esc(t),
        XmlEvent::Raw(t) => t,
    }
}

/// The text a sequence of events is written as.
pub open spec fn render(es: Seq<XmlEvent>) -> Seq<char>
    decreases es.len(),
{
    if es.len() == 0 {
        Seq::empty()
    } else {
        render(es.drop_last()) + event_text(es.last())
    }
}

/// Writing events one after another writes their concatenation.
pub proof fn lemma_render_append(a: Seq<XmlEvent>, b: Seq<XmlEvent>)
    ensures
        render(a + b) == render(a) + render(b),
    decreases b.len(),
{
    if b.len() == 0 {
        assert(a + b =~= a);
    } else {
        lemma_render_append(a, b.drop_last());
        assert((a + b).drop_last() =~= a + b.drop_last());
    }
}

/// Writing one more event appends its text.
pub proof fn lemma_render_push(es: Seq<XmlEvent>, e: XmlEvent)
    ensures
        render(es.push(e)) == render(es) + event_text(e),
{
    assert(es.push(e).drop_last() =~= es);
}

/// Writing the events of a prefix one at a time: the next event appends its text.
pub proof fn lemma_render_take(es: Seq<XmlEvent>, k: int)
    requires
        0 <= k < es.len(),
    ensures
        render(es.take(k + 1)) == render(es.take(k)) + event_text(es[k]),
{
    assert(es.take(k + 1).drop_last() =~= es.take(k));
}

/// The text of the XML declaration.
pub open spec fn decl_text() -> Seq<char> {
    "<?xml version=\"1.0\" encoding=\"utf-8\"?>"@
}

/// `quick_xml::Writer`, which an [`XmlWriter`] writes through.
#[verifier::external_type_specification]
#[verifier::external_body]
#[verifier::reject_recursive_types(W)]
pub struct ExXmlWriter<W>(quick_xml::Writer<W>);

/// The bytes a `quick_xml` writer over a `Vec<u8>` has written so far.
pub uninterp spec fn writer_bytes(w: quick_xml::Writer<Vec<u8>>) -> Seq<u8>;

/// One event handed to `quick_xml`'s writer, as plain values.
pub enum WriteEvent<'a> {
    /// The declaration with this version and encoding.
    Decl(&'a str, &'a str),
    /// `<tag k="v" …>`
    Start(&'a str, &'a [(&'a str, &'a str)]),
    /// `<tag k="v" …/>`
    Empty(&'a str, &'a [(&'a str, &'a str)]),
    /// `</tag>`
    End(&'a str),
    /// Character data.
    Text(&'a str),
    /// `<!DOCTYPE content>`
    DocType(&'a str),
}

/// The text `quick_xml`'s writer writes for an event: the declaration's
/// fields in double quotes; a tag's attributes each as ` key="value"` with
/// the value escaped; text escaped.
pub open spec fn write_text(ev: WriteEvent) -> Seq<char> {
    match ev {
        WriteEvent::Decl(v, e) => "<?xml version=\""@ + v@ + "\" encoding=\""@ + e@ + "\"?>"@,
        WriteEvent::Start(t, a) => event_text(XmlEvent::Start(t@, attrs_view(a@))),
        WriteEvent::Empty(t, a) => event_text(XmlEvent::Empty(t@, attrs_view(a@))),
        WriteEvent::End(t) => event_text(XmlEvent::End(t@)),
        WriteEvent::Text(t) => event_text(XmlEvent::Text(t@)),
        WriteEvent::DocType(c) => doctype_text(c@),
    }
}

/// The text of a document type declaration with this content.
pub open spec fn doctype_text(c: Seq<char>) -> Seq<char> {
    "<!DOCTYPE "@ + c + ">"@
}

/// `quick_xml::Writer::new` over an empty buffer.
#[verifier::external_body]
fn xml_writer() -> (w: quick_xml::Writer<Vec<u8>>)
    ensures
        writer_bytes(w) == Seq::<u8>::empty(),
{
    quick_xml::Writer::new(Vec::new())
}

/// `quick_xml::Writer::write_event`: appends the event's text as UTF-8.
/// Attribute values pass through `Attribute::from((&str, &str))` and text
/// through `BytesText::new`, both of which escape with `escape`; writing
/// to a `Vec` cannot fail.
#[verifier::external_body]
fn xml_write(w: &mut quick_xml::Writer<Vec<u8>>, ev: WriteEvent)
    ensures
        writer_bytes(*final(w)) == writer_bytes(*old(w)) + vstd::utf8::encode_utf8(write_text(ev)),
{
    let e = match ev {
        WriteEvent::Decl(v, e) => Event::Decl(BytesDecl::new(v, Some(e), None)),
        WriteEvent::Start(t, a) => Event::Start(BytesStart::new(t).with_attributes(a.iter().copied())),
        WriteEvent::Empty(t, a) => Event::Empty(BytesStart::new(t).with_attributes(a.iter().copied())),
        WriteEvent::End(t) => Event::End(BytesEnd::new(t)),
        WriteEvent::Text(t) => Event::Text(BytesText::new(t)),
        WriteEvent::DocType(c) => Event::DocType(BytesText::from_escaped(c)),
    };
    let _ = w.write_event(e);
}

/// `quick_xml::Writer::get_mut`: appends `s` to the writer's buffer verbatim.
#[verifier::external_body]
fn xml_write_verbatim(w: &mut quick_xml::Writer<Vec<u8>>, s: &str)
    ensures
        writer_bytes(*final(w)) == writer_bytes(*old(w)) + vstd::utf8::encode_utf8(s@),
{
    w.get_mut().extend_from_slice(s.as_bytes());
}

/// `quick_xml::Writer::into_inner`: the bytes written.
#[verifier::external_body]
fn xml_writer_bytes(w: quick_xml::Writer<Vec<u8>>) -> (b: Vec<u8>)
    ensures
        b@ == writer_bytes(w),
{
    w.into_inner()
}

/// No bytes are the encoding of no text, and valid.
proof fn lemma_empty_writer_text()
    ensures
        vstd::utf8::valid_utf8(Seq::<u8>::empty()),
        vstd::utf8::decode_utf8(Seq::<u8>::empty()) == Seq::<char>::empty(),
{
    assert(vstd::utf8::encode_utf8(Seq::<char>::empty()) =~= Seq::<u8>::empty());
    vstd::utf8::encode_utf8_valid_utf8(Seq::<char>::empty());
    vstd::utf8::encode_utf8_decode_utf8(Seq::<char>::empty());
}

/// Encoding a concatenation encodes each part in turn.
pub proof fn lemma_encode_append(a: Seq<char>, b: Seq<char>)
    ensures
        vstd::utf8::encode_utf8(a + b) == vstd::utf8::encode_utf8(a) + vstd::utf8::encode_utf8(b),
    decreases a.len(),
{
    if a.len() == 0 {
        assert(a + b =~= b);
    } else {
        assert((a + b)[0] == a[0]);
        assert((a + b).drop_first() =~= a.drop_first() + b);
        lemma_encode_append(a.drop_first(), b);
    }
}

/// Appending the encoding of `p` to valid UTF-8 appends `p` to its text.
proof fn lemma_append_text(b: Seq<u8>, p: Seq<char>)
    requires
        vstd::utf8::valid_utf8(b),
    ensures
        vstd::utf8::valid_utf8(b + vstd::utf8::encode_utf8(p)),
        vstd::utf8::decode_utf8(b + vstd::utf8::encode_utf8(p)) == vstd::utf8::decode_utf8(b) + p,
{
    let t = vstd::utf8::decode_utf8(b);
    vstd::utf8::decode_utf8_encode_utf8(b);
    lemma_encode_append(t, p);
    vstd::utf8::encode_utf8_valid_utf8(t + p);
    vstd::utf8::encode_utf8_decode_utf8(t + p);
}

/// Builds an SDK XML document element by element, through `quick_xml`'s
/// writer.
pub struct XmlWriter {
    inner: quick_xml::Writer<Vec<u8>>,
}

impl XmlWriter {
    /// What has been written is UTF-8 text.
    #[verifier::type_invariant]
    spec fn written_text(self) -> bool {
        vstd::utf8::valid_utf8(writer_bytes(self.inner))
    }
}

impl View for XmlWriter {
    type V = Seq<char>;

    closed spec fn view(&self) -> Seq<char> {
        vstd::utf8::decode_utf8(writer_bytes(self.inner))
    }
}

impl XmlWriter {
    /// A fresh writer with an empty buffer.
    pub fn new() -> (w: XmlWriter)
        ensures
            w@ == Seq::<char>::empty(),
    {
        let inner = xml_writer();
        proof {
            lemma_empty_writer_text();
            vstd::utf8::encode_utf8_valid_utf8(Seq::<char>::empty());
            vstd::utf8::encode_utf8_decode_utf8(Seq::<char>::empty());
        }
        XmlWriter { inner }
    }

    /// Hand one event to the writer.
    fn put(&mut self, ev: WriteEvent)
        ensures
            final(self)@ == old(self)@ + write_text(ev),
    {
        proof {
            use_type_invariant(&*self);
            lemma_append_text(writer_bytes(self.inner), write_text(ev));
            lemma_empty_writer_text();
        }
        let mut w = xml_writer();
        std::mem::swap(&mut w, &mut self.inner);
        xml_write(&mut w, ev);
        std::mem::swap(&mut w, &mut self.inner);
    }

    /// Write the `<?xml version="1.0" encoding="utf-8"?>` declaration.
    pub fn decl(&mut self)
        ensures
            final(self)@ == old(self)@ + decl_text(),
    {
        proof {
            reveal_strlit("1.0");
            reveal_strlit("utf-8");
            reveal_strlit("<?xml version=\"");
            reveal_strlit("\" encoding=\"");
            reveal_strlit("\"?>");
            reveal_strlit("<?xml version=\"1.0\" encoding=\"utf-8\"?>");
        }
        self.put(WriteEvent::Decl("1.0", "utf-8"));
    }

    /// Write a self-closing element: `<tag k="v" .../>`.
    pub fn empty(&mut self, tag: &str, attrs: &[(&str, &str)])
        ensures
            final(self)@ == old(self)@ + event_text(XmlEvent::Empty(tag@, attrs_view(attrs@))),
    {
        self.put(WriteEvent::Empty(tag, attrs));
    }

    /// Write an opening tag: `<tag k="v" ...>`.
    pub fn open(&mut self, tag: &str, attrs: &[(&str, &str)])
        ensures
            final(self)@ == old(self)@ + event_text(XmlEvent::Start(tag@, attrs_view(attrs@))),
    {
        self.put(WriteEvent::Start(tag, attrs));
    }

    /// Write a closing tag: `</tag>`.
    pub fn close(&mut self, tag: &str)
        ensures
            final(self)@ == old(self)@ + event_text(XmlEvent::End(tag@)),
    {
        self.put(WriteEvent::End(tag));
    }

    /// Write escaped character data.
    pub fn text(&mut self, t: &str)
        ensures
            final(self)@ == old(self)@ + event_text(XmlEvent::Text(t@)),
    {
        self.put(WriteEvent::Text(t));
    }

    /// Write a document type declaration, its content verbatim.
    fn doctype(&mut self, c: &str)
        ensures
            final(self)@ == old(self)@ + doctype_text(c@),
    {
        self.put(WriteEvent::DocType(c));
    }

    /// Inject an already well-formed XML fragment verbatim (e.g. a screen tree
    /// serialized elsewhere). No escaping: the fragment must be valid XML.
    pub fn raw(&mut self, xml: &str)
        ensures
            final(self)@ == old(self)@ + event_text(XmlEvent::Raw(xml@)),
    {
        proof {
            use_type_invariant(&*self);
            lemma_append_text(writer_bytes(self.inner), xml@);
            lemma_empty_writer_text();
        }
        let mut w = xml_writer();
        std::mem::swap(&mut w, &mut self.inner);
        xml_write_verbatim(&mut w, xml);
        std::mem::swap(&mut w, &mut self.inner);
    }

    /// Consume the writer and return the finished document text.
    pub fn into_string(self) -> (s: String)
        ensures
            s@ == self@,
    {
        proof {
            use_type_invariant(&self);
        }
        let ghost text = self@;
        let b = xml_writer_bytes(self.inner);
        match crate::file::string_from_utf8(b) {
            Ok(s) => s,
            Err(_) => {
                assert(false);
                String::new()
            },
        }
    }

    /// Consume the writer and return the finished document bytes (UTF-8).
    pub fn into_bytes(self) -> (b: Vec<u8>)
        ensures
            b@ == vstd::utf8::encode_utf8(self@),
    {
        proof {
            use_type_invariant(&self);
            vstd::utf8::decode_utf8_encode_utf8(writer_bytes(self.inner));
        }
        xml_writer_bytes(self.inner)
    }
}

/// A character of a name as this library writes names: an ASCII letter or
/// digit, `_`, `-` or `.`.
pub open spec fn name_char(c: char) -> bool {
    ('a' <= c && c <= 'z') || ('A' <= c && c <= 'Z') || ('0' <= c && c <= '9') || c == '_' || c == '-' || c == '.'
}

/// A non-empty name made of name characters.
pub open spec fn name_ok(n: Seq<char>) -> bool {
    n.len() > 0 && forall|i: int| 0 <= i < n.len() ==> #[trigger] name_char(n[i])
}

/// Attribute keys that are names, none repeated.
pub open spec fn keys_ok(a: AttrsView) -> bool {
    &&& forall|i: int| 0 <= i < a.len() ==> name_ok(#[trigger] a[i].0)
    &&& forall|i: int, j: int| 0 <= i < j < a.len() ==> #[trigger] a[i].0 != #[trigger] a[j].0
}

/// An event whose names are names and whose keys are distinct; no verbatim
/// fragment.
pub open spec fn event_ok(e: XmlEvent) -> bool {
    match e {
        XmlEvent::Start(n, a) => name_ok(n) && keys_ok(a),
        XmlEvent::Empty(n, a) => name_ok(n) && keys_ok(a),
        XmlEvent::End(n) => name_ok(n),
        XmlEvent::Text(_) => true,
        XmlEvent::Raw(_) => false,
    }
}

/// The elements left open after `es`, starting from `open`, or `None` when
/// an end element does not close the innermost open one.
pub open spec fn open_after(open: Option<Seq<Seq<char>>>, es: Seq<XmlEvent>) -> Option<Seq<Seq<char>>>
    decreases es.len(),
{
    if es.len() == 0 {
        open
    } else {
        match open_after(open, es.drop_last()) {
            None => None,
            Some(st) => match es.last() {
                XmlEvent::Start(n, _) => Some(st.push(n)),
                XmlEvent::End(n) => if st.len() > 0 && st.last() == n {
                    Some(st.drop_last())
                } else {
                    None
                },
                _ => Some(st),
            },
        }
    }
}

/// Events that make a well-formed document body: every event is well
/// named, and every element that opens is closed, innermost first.
pub open spec fn events_wf(es: Seq<XmlEvent>) -> bool {
    &&& open_after(Some(Seq::empty()), es) == Some(Seq::<Seq<char>>::empty())
    &&& forall|k: int| 0 <= k < es.len() ==> event_ok(#[trigger] es[k])
}

/// Nesting through a concatenation nests through each part in turn.
pub proof fn lemma_open_after_append(open: Option<Seq<Seq<char>>>, a: Seq<XmlEvent>, b: Seq<XmlEvent>)
    ensures
        open_after(open, a + b) == open_after(open_after(open, a), b),
    decreases b.len(),
{
    if b.len() == 0 {
        assert(a + b =~= a);
    } else {
        lemma_open_after_append(open, a, b.drop_last());
        assert((a + b).drop_last() =~= a + b.drop_last());
        assert(open_after(None, b.drop_last()) is None) by {
            lemma_open_after_none(b.drop_last());
        }
    }
}

/// Nothing recovers from a misnested end.
pub proof fn lemma_open_after_none(es: Seq<XmlEvent>)
    ensures
        open_after(None, es) is None,
    decreases es.len(),
{
    if es.len() > 0 {
        lemma_open_after_none(es.drop_last());
    }
}

/// Nesting does not depend on what is open further out: elements opened
/// and closed on top of `st` are opened and closed the same way on top of
/// `p + st`.
pub proof fn lemma_open_after_shift(p: Seq<Seq<char>>, st: Seq<Seq<char>>, es: Seq<XmlEvent>)
    requires
        open_after(Some(st), es) is Some,
    ensures
        open_after(Some(p + st), es) == Some(p + open_after(Some(st), es)->Some_0),
    decreases es.len(),
{
    if es.len() > 0 {
        let init = es.drop_last();
        lemma_open_after_shift(p, st, init);
        let s1 = open_after(Some(st), init)->Some_0;
        match es.last() {
            XmlEvent::Start(n, _) => {
                assert((p + s1).push(n) =~= p + s1.push(n));
            },
            XmlEvent::End(n) => {
                assert((p + s1).last() == s1.last());
                assert((p + s1).drop_last() =~= p + s1.drop_last());
            },
            _ => {},
        }
    } else {
        assert(p + st =~= p + st);
    }
}

/// Empty elements and text open nothing and close nothing.
pub proof fn lemma_open_after_flat(st: Seq<Seq<char>>, es: Seq<XmlEvent>)
    requires
        forall|k: int| 0 <= k < es.len() ==> (#[trigger] es[k] is Empty || es[k] is Text),
    ensures
        open_after(Some(st), es) == Some(st),
    decreases es.len(),
{
    if es.len() > 0 {
        let init = es.drop_last();
        assert forall|k: int| 0 <= k < init.len() implies (#[trigger] init[k] is Empty || init[k] is Text) by {
            assert(init[k] == es[k]);
        }
        lemma_open_after_flat(st, init);
        assert(es[es.len() - 1] is Empty || es[es.len() - 1] is Text);
    }
}

/// An element holding only empty elements and text closes what it opens.
pub proof fn lemma_open_after_wrapped(st: Seq<Seq<char>>, n: Seq<char>, a: AttrsView, mid: Seq<XmlEvent>)
    requires
        forall|k: int| 0 <= k < mid.len() ==> (#[trigger] mid[k] is Empty || mid[k] is Text),
    ensures
        open_after(Some(st), seq![XmlEvent::Start(n, a)] + mid + seq![XmlEvent::End(n)]) == Some(st),
{
    let s0 = seq![XmlEvent::Start(n, a)];
    let s1 = seq![XmlEvent::End(n)];
    lemma_open_after_append(Some(st), s0, mid);
    lemma_open_after_append(Some(st), s0 + mid, s1);
    assert(s0.drop_last() =~= Seq::<XmlEvent>::empty());
    assert(open_after(Some(st), Seq::<XmlEvent>::empty()) == Some(st));
    assert(s0.last() == XmlEvent::Start(n, a));
    assert(open_after(Some(st), s0) == Some(st.push(n)));
    lemma_open_after_flat(st.push(n), mid);
    assert(s1.drop_last() =~= Seq::<XmlEvent>::empty());
    assert(st.push(n).drop_last() =~= st);
    assert(open_after(Some(st.push(n)), Seq::<XmlEvent>::empty()) == Some(st.push(n)));
    assert(s1.last() == XmlEvent::End(n));
    assert(st.push(n).last() == n);
    assert(open_after(Some(st.push(n)), s1) == Some(st));
}

/// The elements of well-named events have well-named, plain names and
/// distinct keys.
pub proof fn lemma_elements_named(es: Seq<XmlEvent>)
    requires
        forall|k: int| 0 <= k < es.len() ==> event_ok(#[trigger] es[k]),
    ensures
        forall|j: int| 0 <= j < elements_of(es).len() ==> name_ok(#[trigger] elements_of(es)[j].0) && keys_ok(
            elements_of(es)[j].1,
        ),
    decreases es.len(),
{
    if es.len() > 0 {
        let init = es.drop_last();
        assert forall|k: int| 0 <= k < init.len() implies event_ok(#[trigger] init[k]) by {
            assert(init[k] == es[k]);
        }
        lemma_elements_named(init);
        assert(event_ok(es[es.len() - 1]));
        let a = elements_of(init);
        let b = event_elements(es.last());
        assert forall|j: int| 0 <= j < elements_of(es).len() implies name_ok(#[trigger] elements_of(es)[j].0)
            && keys_ok(elements_of(es)[j].1) by {
            if j < a.len() {
                assert(elements_of(es)[j] == a[j]);
            } else {
                assert(elements_of(es)[j] == b[j - a.len()]);
            }
        }
    }
}

/// A name made of name characters has no namespace prefix.
pub proof fn lemma_name_plain(n: Seq<char>)
    requires
        name_ok(n),
    ensures
        plain(n),
        local_part(n) == n,
{
    assert forall|i: int| 0 <= i < n.len() implies n[i] != ':' by {
        assert(name_char(n[i]));
    }
}

/// Attributes with their values escaped, as a reader finds them in the text.
pub open spec fn escaped_attrs(a: AttrsView) -> Seq<Option<(Seq<char>, Seq<char>)>> {
    a.map_values(|p: (Seq<char>, Seq<char>)| Some((p.0, esc(p.1))))
}

/// The elements of written events as a reader finds them in the text: name
/// and escaped attribute values.
pub open spec fn raw_elements(es: Seq<XmlEvent>) -> Seq<(Seq<char>, Seq<Option<(Seq<char>, Seq<char>)>>)> {
    elements_of(es).map_values(|e: ElementView| (e.0, escaped_attrs(e.1)))
}

/// `quick_xml::Reader`, held opaque while a document is scanned.
#[verifier::external_type_specification]
#[verifier::external_body]
#[verifier::reject_recursive_types(R)]
pub struct ExXmlReader<R>(quick_xml::Reader<R>);

/// One read from a document, as plain values.
pub enum ScanItem {
    /// A start (`empty == false`) or empty element beginning at byte
    /// `start`: its qualified name and, in order, each attribute as
    /// `(qualified key, raw value)`, or `None` where the attribute is malformed.
    Element { start: nat, empty: bool, qname: Seq<char>, attrs: Seq<Option<(Seq<char>, Seq<char>)>> },
    /// An end element beginning at byte `start`, with its name as read
    /// (trailing whitespace removed).
    End { start: nat, name: Seq<char> },
    /// A document type declaration beginning at byte `start`, with its
    /// content after the keyword and the spaces that follow it.
    DocType { start: nat, content: Seq<char> },
    /// Text, a comment, a declaration or another event beginning at byte `start`.
    Other { start: nat },
    /// The end of the document, reached at byte `start`.
    Eof { start: nat },
    /// A syntax error met by the read beginning at byte `start`.
    Fail { start: nat },
}

/// The byte offset a read starts at.
pub open spec fn item_start(i: ScanItem) -> nat {
    match i {
        ScanItem::Element { start, .. } => start,
        ScanItem::End { start, .. } => start,
        ScanItem::DocType { start, .. } => start,
        ScanItem::Other { start } => start,
        ScanItem::Eof { start } => start,
        ScanItem::Fail { start } => start,
    }
}

/// Whether a read ends the scan.
pub open spec fn terminal(i: ScanItem) -> bool {
    i is Eof || i is Fail
}

/// A complete scan: it ends with its first end-of-document or error.
pub open spec fn scan_wf(items: Seq<ScanItem>) -> bool {
    &&& items.len() > 0
    &&& terminal(items.last())
    &&& forall|k: int| 0 <= k < items.len() - 1 ==> !terminal(#[trigger] items[k])
}

/// The elements a scan shows, as read (qualified name and raw attributes),
/// up to the end of the document, or `None` when it meets an error first.
pub open spec fn scan_raw(items: Seq<ScanItem>) -> Option<Seq<(Seq<char>, Seq<Option<(Seq<char>, Seq<char>)>>)>>
    decreases items.len(),
{
    if items.len() == 0 {
        Some(Seq::empty())
    } else {
        match items[0] {
            ScanItem::Element { qname, attrs, .. } => match scan_raw(items.drop_first()) {
                None => None,
                Some(rest) => Some(seq![(qname, attrs)] + rest),
            },
            ScanItem::Eof { .. } => Some(Seq::empty()),
            ScanItem::Fail { .. } => None,
            _ => scan_raw(items.drop_first()),
        }
    }
}

/// The reads a fresh `quick_xml` reader over `doc` gives, in order, through
/// the first end-of-document or error.
pub uninterp spec fn xml_scan(doc: Seq<char>) -> Seq<ScanItem>;

/// The reads a `quick_xml` reader has still to give.
pub uninterp spec fn reader_pending(r: quick_xml::Reader<&[u8]>) -> Seq<ScanItem>;

/// `quick_xml::Reader::from_str`: a reader positioned at the start of `s`,
/// whose reads are those of the document's scan, ending at the first
/// end-of-document or error. A slice reader consumes at least one byte on
/// every other read, so the scan has at most one read more than the
/// document has bytes. A document that is the XML declaration followed by
/// well-formed events, written as this library writes them, reads without
/// error and shows exactly their start and empty elements, each with its
/// name and its attributes in order with their escaped values.
#[verifier::external_body]
fn xml_reader<'a>(s: &'a str) -> (r: quick_xml::Reader<&'a [u8]>)
    ensures
        reader_pending(r) == xml_scan(s@),
        scan_wf(reader_pending(r)),
        reader_pending(r).len() <= vstd::utf8::encode_utf8(s@).len() + 1,
        forall|es: Seq<XmlEvent>| #[trigger] events_wf(es) && s@ == decl_text() + render(es) ==> scan_raw(
            reader_pending(r),
        ) == Some(raw_elements(es)),
{
    quick_xml::Reader::from_str(s)
}

/// `quick_xml::events::attributes::AttrError`, the error of a malformed
/// attribute.
#[verifier::external_type_specification]
#[verifier::external_body]
pub struct ExAttrError(quick_xml::events::attributes::AttrError);

/// The XML error for a malformed attribute, carrying `AttrError`'s message.
#[verifier::external_body]
fn xml_attr_error(e: &quick_xml::events::attributes::AttrError) -> (res: ProtoError)
    ensures
        res is Xml,
{
    ProtoError::Xml(e.to_string())
}

/// What one read from the document gives, as plain values.
pub enum ReadStep<'a> {
    /// A start or empty element: whether it is empty, its qualified name,
    /// and the element itself, whose attributes [`xml_attrs`] reads.
    Element(bool, String, quick_xml::events::BytesStart<'a>),
    /// An end element, with its name.
    End(String),
    /// A document type declaration, with its content.
    DocType(String),
    /// Any other event: text, a comment, the declaration, …
    Other,
    /// The end of the document.
    Eof,
}

/// The plain-value form of a read's attributes.
pub open spec fn raw_attrs_view(a: Seq<Result<(String, String), quick_xml::events::attributes::AttrError>>) -> Seq<Option<(Seq<char>, Seq<char>)>> {
    a.map_values(|r: Result<(String, String), quick_xml::events::attributes::AttrError>| match r {
        Ok(p) => Some((p.0@, p.1@)),
        Err(_) => None,
    })
}

/// `res` is what the read `item` gives.
pub open spec fn read_gives(res: Result<ReadStep, ProtoError>, item: ScanItem) -> bool {
    match item {
        ScanItem::Element { empty, qname, attrs, .. } => res matches Ok(ReadStep::Element(e, q, b)) && e == empty
            && q@ == qname && start_attrs(b) == attrs,
        ScanItem::End { name, .. } => res matches Ok(ReadStep::End(n)) && n@ == name,
        ScanItem::DocType { content, .. } => res matches Ok(ReadStep::DocType(c)) && c@ == content,
        ScanItem::Other { .. } => res matches Ok(ReadStep::Other),
        ScanItem::Eof { .. } => res matches Ok(ReadStep::Eof),
        ScanItem::Fail { .. } => res matches Err(ProtoError::Xml(_)),
    }
}

/// `quick_xml::events::BytesStart`, a start or empty element as read.
#[verifier::external_type_specification]
#[verifier::external_body]
pub struct ExBytesStart<'a>(quick_xml::events::BytesStart<'a>);

/// The attributes a read element holds, in order, each as `(qualified key,
/// raw value)`, or `None` where the attribute is malformed.
pub uninterp spec fn start_attrs(e: quick_xml::events::BytesStart) -> Seq<Option<(Seq<char>, Seq<char>)>>;

/// `BytesStart::attributes`: the element's attributes, in order.
#[verifier::external_body]
fn xml_attrs(e: &quick_xml::events::BytesStart) -> (a: Vec<Result<(String, String), quick_xml::events::attributes::AttrError>>)
    ensures
        raw_attrs_view(a@) == start_attrs(*e),
{
    e.attributes().map(|a| a.map(|a| (String::from_utf8_lossy(a.key.0).into(), String::from_utf8_lossy(&a.value).into()))).collect()
}

/// A read that gives the first pending read and leaves the rest pending.
pub open spec fn reads_next(before: Seq<ScanItem>, after: Seq<ScanItem>, res: Result<ReadStep, ProtoError>) -> bool {
    before.len() > 0 ==> read_gives(res, before[0]) && after == before.drop_first()
}

/// `quick_xml::Reader::read_event`: the reader's next read, after which it
/// has the rest still to give.
#[verifier::external_body]
fn xml_read_event<'a>(r: &mut quick_xml::Reader<&'a [u8]>) -> (res: Result<ReadStep<'a>, ProtoError>)
    ensures
        reads_next(reader_pending(*old(r)), reader_pending(*final(r)), res),
{
    let ev = match r.read_event() {
        Ok(ev) => ev,
        Err(e) => return Err(ProtoError::Xml(e.to_string())),
    };
    let empty = matches!(ev, Event::Empty(_));
    Ok(match ev {
        Event::Start(e) | Event::Empty(e) => ReadStep::Element(empty, String::from_utf8_lossy(e.name().0).into(), e),
        Event::End(e) => ReadStep::End(String::from_utf8_lossy(&e).into()),
        Event::DocType(e) => ReadStep::DocType(String::from_utf8_lossy(&e).into()),
        Event::Eof => ReadStep::Eof,
        _ => ReadStep::Other,
    })
}

/// `quick_xml::Reader::buffer_position`: the byte offset the next read
/// starts at.
#[verifier::external_body]
fn xml_position(r: &quick_xml::Reader<&[u8]>) -> (pos: u64)
    ensures
        reader_pending(*r).len() > 0 ==> pos == item_start(reader_pending(*r)[0]),
{
    r.buffer_position()
}

/// What `quick_xml::escape::unescape` gives for a raw attribute value:
/// the text with entity and character references resolved, or `None` for
/// an unknown or malformed reference.
pub uninterp spec fn xml_unescaped(raw: Seq<char>) -> Option<Seq<char>>;

/// `quick_xml::escape::unescape`: resolve the references of a raw value.
/// It resolves the five predefined entities, so it undoes `escape`.
#[verifier::external_body]
fn xml_unescape(raw: &str) -> (res: Result<String, String>)
    ensures
        res is Ok <==> xml_unescaped(raw@) is Some,
        res matches Ok(v) ==> v@ == xml_unescaped(raw@)->Some_0,
        res is Ok || forall|v: Seq<char>| #[trigger] esc(v) != raw@,
        res matches Ok(t) ==> forall|v: Seq<char>| #[trigger] esc(v) == raw@ ==> t@ == v,
{
    match quick_xml::escape::unescape(raw) {
        Ok(v) => Ok(v.into_owned()),
        Err(e) => Err(e.to_string()),
    }
}

/// An element as plain values: its local name and its attributes in
/// document order, each as (qualified key, unescaped value).
pub type ElementView = (Seq<char>, AttrsView);

/// One attribute as read: its qualified key and its unescaped value, or
/// `None` when the value holds a reference that cannot be resolved.
pub type AttrRead = (Seq<char>, Option<Seq<char>>);

/// An element as read, in full: its local name, its attributes up to the
/// first malformed one, and whether one was malformed.
pub type ElementFull = (Seq<char>, Seq<AttrRead>, bool);

/// One start or empty element of a scanned document. An attribute that
/// cannot be read is kept as a failure and reported only when it is looked
/// up.
#[derive(Debug, Clone, PartialEq, Eq)]
pub struct XmlElement {
    /// The element's local name (namespace prefix removed).
    pub name: String,
    /// The attributes before the first malformed one, in document order:
    /// the qualified key and the unescaped value, or the message of a value
    /// whose references cannot be resolved.
    pub attrs: Vec<(String, Result<String, String>)>,
    /// The message of the first malformed attribute, if there is one.
    pub malformed: Option<String>,
}

impl XmlElement {
    /// The element as read, in full.
    pub open spec fn full(&self) -> ElementFull {
        (
            self.name@,
            self.attrs@.map_values(|p: (String, Result<String, String>)| (p.0@, match p.1 {
                Ok(v) => Some(v@),
                Err(_) => None,
            })),
            self.malformed is Some,
        )
    }
}

/// The attributes of an element as read, with a value that cannot be
/// unescaped standing as empty.
pub open spec fn cooked(f: ElementFull) -> ElementView {
    (f.0, f.1.map_values(|a: AttrRead| (a.0, match a.1 {
        Some(v) => v,
        None => Seq::empty(),
    })))
}

impl View for XmlElement {
    type V = ElementView;

    open spec fn view(&self) -> ElementView {
        cooked(self.full())
    }
}

/// The elements of a document as plain values.
pub open spec fn elements_view(es: Seq<XmlElement>) -> Seq<ElementView> {
    es.map_values(|e: XmlElement| e@)
}

/// The elements of a document as read, in full.
pub open spec fn elements_full(es: Seq<XmlElement>) -> Seq<ElementFull> {
    es.map_values(|e: XmlElement| e.full())
}

/// The plain view of elements is the cooked view of them as read.
pub proof fn lemma_elements_view_full(es: Seq<XmlElement>)
    ensures
        elements_view(es) == cooked_all(elements_full(es)),
{
    assert(elements_view(es) =~= cooked_all(elements_full(es)));
}

/// Elements as read, with readable values only.
pub open spec fn cooked_all(fs: Seq<ElementFull>) -> Seq<ElementView> {
    fs.map_values(|f: ElementFull| cooked(f))
}

/// An element whose attributes all read cleanly.
pub open spec fn clean_full(e: ElementView) -> ElementFull {
    (e.0, e.1.map_values(|p: (Seq<char>, Seq<char>)| (p.0, Some(p.1))), false)
}

/// Elements whose attributes all read cleanly.
pub open spec fn clean_all(es: Seq<ElementView>) -> Seq<ElementFull> {
    es.map_values(|e: ElementView| clean_full(e))
}

/// The value read for the first attribute whose key, or whose key's local
/// part, is `name`, or `None` when there is no such attribute.
pub open spec fn attr_slot(attrs: Seq<AttrRead>, name: Seq<char>) -> Option<Option<Seq<char>>>
    decreases attrs.len(),
{
    if attrs.len() == 0 {
        None
    } else if attrs[0].0 == name || local_part(attrs[0].0) == name {
        Some(attrs[0].1)
    } else {
        attr_slot(attrs.drop_first(), name)
    }
}

/// Whether looking `name` up succeeds: the first matching attribute's value
/// can be unescaped, or there is no matching attribute and none was
/// malformed before the scan for it stopped.
pub open spec fn readable(f: ElementFull, name: Seq<char>) -> bool {
    match attr_slot(f.1, name) {
        Some(v) => v is Some,
        None => !f.2,
    }
}

/// Every element satisfies `reads`.
pub open spec fn reads_all(fs: Seq<ElementFull>, reads: spec_fn(ElementFull) -> bool) -> bool {
    forall|k: int| 0 <= k < fs.len() ==> #[trigger] reads(fs[k])
}

/// One element that fails `reads` fails the whole document.
pub proof fn lemma_reads_all_fails(fs: Seq<ElementFull>, reads: spec_fn(ElementFull) -> bool, k: int)
    requires
        0 <= k < fs.len(),
        !reads(fs[k]),
    ensures
        !reads_all(fs, reads),
{
}

/// In an element that reads cleanly, every lookup succeeds.
pub proof fn lemma_clean_readable(e: ElementView)
    ensures
        forall|n: Seq<char>| #[trigger] readable(clean_full(e), n),
        cooked(clean_full(e)) == e,
{
    assert forall|n: Seq<char>| #[trigger] readable(clean_full(e), n) by {
        lemma_clean_slot(e.1, n);
    }
    assert(cooked(clean_full(e)).1 =~= e.1);
}

proof fn lemma_clean_slot(a: AttrsView, n: Seq<char>)
    ensures
        attr_slot(a.map_values(|p: (Seq<char>, Seq<char>)| (p.0, Some(p.1))), n) is Some ==> attr_slot(
            a.map_values(|p: (Seq<char>, Seq<char>)| (p.0, Some(p.1))),
            n,
        )->Some_0 is Some,
    decreases a.len(),
{
    let m = a.map_values(|p: (Seq<char>, Seq<char>)| (p.0, Some(p.1)));
    if a.len() > 0 {
        assert(m.drop_first() =~= a.drop_first().map_values(|p: (Seq<char>, Seq<char>)| (p.0, Some(p.1))));
        lemma_clean_slot(a.drop_first(), n);
    }
}

/// Cooking elements that read cleanly gives them back.
pub proof fn lemma_cooked_clean(es: Seq<ElementView>)
    ensures
        cooked_all(clean_all(es)) == es,
{
    assert forall|k: int| 0 <= k < es.len() implies cooked_all(clean_all(es))[k] == es[k] by {
        lemma_clean_readable(es[k]);
    }
    assert(cooked_all(clean_all(es)) =~= es);
}

/// Where a lookup succeeds, its value is that of the cooked attributes.
proof fn lemma_slot_value(attrs: Seq<AttrRead>, name: Seq<char>)
    ensures
        attr_value(cooked((Seq::empty(), attrs, false)).1, name) == match attr_slot(attrs, name) {
            Some(Some(v)) => Some(v),
            Some(None) => Some(Seq::<char>::empty()),
            None => None,
        },
    decreases attrs.len(),
{
    let c = cooked((Seq::empty(), attrs, false)).1;
    if attrs.len() > 0 {
        assert(c.drop_first() =~= cooked((Seq::empty(), attrs.drop_first(), false)).1);
        lemma_slot_value(attrs.drop_first(), name);
    }
}

/// The local part of a qualified name: everything after the first `:`, or
/// the whole name when it has none.
pub open spec fn local_part(q: Seq<char>) -> Seq<char> {
    if exists|i: int| 0 <= i < q.len() && q[i] == ':' {
        let i = choose|i: int| 0 <= i < q.len() && q[i] == ':' && forall|j: int| 0 <= j < i ==> q[j] != ':';
        q.subrange(i + 1, q.len() as int)
    } else {
        q
    }
}

/// The local part of a qualified element or attribute name: the name with
/// any namespace prefix removed.
pub fn local_name(q: &str) -> (r: String)
    ensures
        r@ == local_part(q@),
{
    let n = q.unicode_len();
    let mut i: usize = 0;
    while i < n
        invariant
            n == q@.len(),
            i <= n,
            forall|j: int| 0 <= j < i ==> q@[j] != ':',
        decreases n - i,
    {
        if q.get_char(i) == ':' {
            proof {
                let k = choose|k: int| 0 <= k < q@.len() && q@[k] == ':' && forall|j: int| 0 <= j < k ==> q@[j] != ':';
                assert(k == i as int) by {
                    if k < i {
                        assert(q@[k] != ':');
                    } else if k > i {
                        assert(q@[i as int] != ':');
                    }
                }
            }
            return String::from_str(q.substring_char(i + 1, n));
        }
        i = i + 1;
    }
    String::from_str(q)
}

/// The value of the first attribute whose key, or whose key's local part, is
/// `name`.
pub open spec fn attr_value(attrs: AttrsView, name: Seq<char>) -> Option<Seq<char>>
    decreases attrs.len(),
{
    if attrs.len() == 0 {
        None
    } else if attrs[0].0 == name || local_part(attrs[0].0) == name {
        Some(attrs[0].1)
    } else {
        attr_value(attrs.drop_first(), name)
    }
}

/// A name with no `:` in it: it is its own local part.
pub open spec fn plain(q: Seq<char>) -> bool {
    forall|i: int| 0 <= i < q.len() ==> q[i] != ':'
}

/// A plain name's local part is the name itself.
pub proof fn lemma_plain_local(q: Seq<char>)
    requires
        plain(q),
    ensures
        local_part(q) == q,
{
}

/// With plain keys, looking up the `i`-th key finds the `i`-th value when
/// no earlier key is the same.
pub proof fn lemma_attr_lookup(attrs: AttrsView, i: int)
    requires
        0 <= i < attrs.len(),
        forall|j: int| 0 <= j < attrs.len() ==> plain(#[trigger] attrs[j].0),
        forall|j: int| 0 <= j < i ==> #[trigger] attrs[j].0 != attrs[i].0,
    ensures
        attr_value(attrs, attrs[i].0) == Some(attrs[i].1),
    decreases i,
{
    lemma_plain_local(attrs[0].0);
    if i > 0 {
        let rest = attrs.drop_first();
        assert forall|j: int| 0 <= j < rest.len() implies plain(#[trigger] rest[j].0) by {
            assert(rest[j] == attrs[j + 1]);
        }
        assert forall|j: int| 0 <= j < i - 1 implies #[trigger] rest[j].0 != rest[i - 1].0 by {
            assert(rest[j] == attrs[j + 1]);
        }
        lemma_attr_lookup(rest, i - 1);
    }
}

/// With plain keys none of which is `name`, looking `name` up finds nothing.
pub proof fn lemma_attr_absent(attrs: AttrsView, name: Seq<char>)
    requires
        forall|j: int| 0 <= j < attrs.len() ==> plain(#[trigger] attrs[j].0) && attrs[j].0 != name,
    ensures
        attr_value(attrs, name) is None,
    decreases attrs.len(),
{
    if attrs.len() > 0 {
        lemma_plain_local(attrs[0].0);
        let rest = attrs.drop_first();
        assert forall|j: int| 0 <= j < rest.len() implies plain(#[trigger] rest[j].0) && rest[j].0 != name by {
            assert(rest[j] == attrs[j + 1]);
        }
        lemma_attr_absent(rest, name);
    }
}

/// Fetch one attribute's value by name, matching either the qualified key or
/// its local part. A value that cannot be unescaped, or a malformed
/// attribute met before a match, fails the lookup.
pub fn attr(e: &XmlElement, name: &str) -> (r: Result<Option<String>, ProtoError>)
    ensures
        readable(e.full(), name@) ==> match attr_value(e@.1, name@) {
            Some(v) => r matches Ok(Some(s)) && s@ == v,
            None => r matches Ok(None),
        },
        !readable(e.full(), name@) ==> r matches Err(ProtoError::Xml(_)),
{
    let n = e.attrs.len();
    let ghost av = e.full().1;
    let mut i: usize = 0;
    proof {
        lemma_slot_value(av, name@);
        assert(e@.1 == cooked((Seq::empty(), av, false)).1);
    }
    assert(av.subrange(0, n as int) =~= av);
    while i < n
        invariant
            n == e.attrs@.len(),
            av == e.full().1,
            i <= n,
            attr_slot(av, name@) == attr_slot(av.subrange(i as int, n as int), name@),
        decreases n - i,
    {
        let k = e.attrs[i].0.as_str();
        let ghost rest = av.subrange(i as int, n as int);
        assert(rest[0] == av[i as int]);
        assert(rest.drop_first() =~= av.subrange(i + 1, n as int));
        let mut hit = str_eq(k, name);
        if !hit {
            let local = local_name(k);
            hit = str_eq(local.as_str(), name);
        }
        if hit {
            assert(attr_slot(av, name@) == Some(av[i as int].1));
            proof {
                lemma_slot_value(av, name@);
                assert(e@.1 == cooked((Seq::empty(), av, false)).1);
            }
            return match &e.attrs[i].1 {
                Ok(v) => {
                    assert(av[i as int].1 == Some(v@));
                    Ok(Some(String::from_str(v.as_str())))
                },
                Err(m) => {
                    assert(av[i as int].1 is None);
                    Err(ProtoError::Xml(String::from_str(m.as_str())))
                },
            };
        }
        i = i + 1;
    }
    assert(av.subrange(n as int, n as int).len() == 0);
    match &e.malformed {
        Some(m) => Err(ProtoError::Xml(String::from_str(m.as_str()))),
        None => Ok(None),
    }
}

/// Whether an element's name is `tag`.
pub fn is_named(e: &XmlElement, tag: &str) -> (b: bool)
    ensures
        b == (e@.0 == tag@),
{
    str_eq(e.name.as_str(), tag)
}

/// The attributes of a read element, in order, up to the first malformed
/// one, each with its value unescaped where that succeeds; and whether a
/// malformed one stopped them.
pub open spec fn attrs_read(attrs: Seq<Option<(Seq<char>, Seq<char>)>>) -> (Seq<AttrRead>, bool)
    decreases attrs.len(),
{
    if attrs.len() == 0 {
        (Seq::empty(), false)
    } else {
        match attrs[0] {
            None => (Seq::empty(), true),
            Some(kv) => {
                let rest = attrs_read(attrs.drop_first());
                (seq![(kv.0, xml_unescaped(kv.1))] + rest.0, rest.1)
            },
        }
    }
}

/// The element a read gives: its local name and its attributes as read.
pub open spec fn element_full_of(qname: Seq<char>, attrs: Seq<Option<(Seq<char>, Seq<char>)>>) -> ElementFull {
    (local_part(qname), attrs_read(attrs).0, attrs_read(attrs).1)
}

/// Read one element's name and attributes into plain values. Reading never
/// fails here: a malformed attribute, or a value that cannot be unescaped,
/// is kept and reported when it is looked up.
fn element_of(qname: String, raw: Vec<Result<(String, String), quick_xml::events::attributes::AttrError>>) -> (el: XmlElement)
    ensures
        el.full() == element_full_of(qname@, raw_attrs_view(raw@)),
        forall|plain: AttrsView| #[trigger] escaped_attrs(plain) == raw_attrs_view(raw@) ==> el.full()
            == clean_full((local_part(qname@), plain)),
{
    let ghost rv = raw_attrs_view(raw@);
    let name = local_name(qname.as_str());
    let mut attrs: Vec<(String, Result<String, String>)> = Vec::new();
    let n = raw.len();
    let mut i: usize = 0;
    let ghost view_of = |a: Seq<(String, Result<String, String>)>| a.map_values(
        |p: (String, Result<String, String>)| (p.0@, match p.1 {
            Ok(v) => Some(v@),
            Err(_) => None,
        }),
    );
    assert(rv.subrange(0, n as int) =~= rv);
    assert(view_of(attrs@) =~= Seq::<AttrRead>::empty());
    while i < n
        invariant
            n == raw@.len(),
            rv == raw_attrs_view(raw@),
            name@ == local_part(qname@),
            i <= n,
            view_of == (|a: Seq<(String, Result<String, String>)>| a.map_values(
                |p: (String, Result<String, String>)| (p.0@, match p.1 {
                    Ok(v) => Some(v@),
                    Err(_) => None,
                }),
            )),
            attrs_read(rv) == (view_of(attrs@) + attrs_read(rv.subrange(i as int, n as int)).0, attrs_read(
                rv.subrange(i as int, n as int),
            ).1),
            forall|plain: AttrsView| #[trigger] escaped_attrs(plain) == rv ==> view_of(attrs@) == plain.take(
                i as int,
            ).map_values(|p: (Seq<char>, Seq<char>)| (p.0, Some(p.1))),
        decreases n - i,
    {
        let ghost rest = rv.subrange(i as int, n as int);
        assert(rest[0] == rv[i as int]);
        assert(rest.drop_first() =~= rv.subrange(i + 1, n as int));
        match &raw[i] {
            Err(m) => {
                let msg = match xml_attr_error(m) {
                    ProtoError::Xml(t) => t,
                    _ => String::new(),
                };
                proof {
                    assert(rv[i as int] is None);
                    assert(attrs_read(rest) == (Seq::<AttrRead>::empty(), true));
                    assert(attrs_read(rv).1);
                    assert(attrs_read(rv).0 =~= view_of(attrs@));
                    assert(view_of(attrs@) + Seq::<AttrRead>::empty() =~= view_of(attrs@));
                    assert forall|plain: AttrsView| #[trigger] escaped_attrs(plain) != rv by {
                        if escaped_attrs(plain) == rv {
                            assert(escaped_attrs(plain)[i as int] == rv[i as int]);
                        }
                    }
                }
                let el = XmlElement { name, attrs, malformed: Some(msg) };
                assert(el.full().1 =~= view_of(el.attrs@));
                return el;
            },
            Ok(kv) => {
                let v = xml_unescape(kv.1.as_str());
                let ghost before = attrs@;
                attrs.push((String::from_str(kv.0.as_str()), v));
                proof {
                    let tail = attrs_read(rv.subrange(i + 1, n as int));
                    assert(view_of(attrs@) =~= view_of(before).push((kv.0@, xml_unescaped(kv.1@))));
                    assert(view_of(before) + (seq![(kv.0@, xml_unescaped(kv.1@))] + tail.0) =~= view_of(attrs@)
                        + tail.0);
                    assert forall|plain: AttrsView| #[trigger] escaped_attrs(plain) == rv implies view_of(attrs@)
                        == plain.take(i + 1).map_values(|p: (Seq<char>, Seq<char>)| (p.0, Some(p.1))) by {
                        assert(escaped_attrs(plain)[i as int] == rv[i as int]);
                        assert(esc(plain[i as int].1) == kv.1@);
                        assert(plain.take(i + 1).map_values(|p: (Seq<char>, Seq<char>)| (p.0, Some(p.1)))
                            =~= plain.take(i as int).map_values(|p: (Seq<char>, Seq<char>)| (p.0, Some(p.1))).push(
                            (plain[i as int].0, Some(plain[i as int].1)),
                        ));
                    }
                }
            },
        }
        i = i + 1;
    }
    proof {
        assert(rv.subrange(n as int, n as int).len() == 0);
        assert(view_of(attrs@) + Seq::<AttrRead>::empty() =~= view_of(attrs@));
        assert forall|plain: AttrsView| #[trigger] escaped_attrs(plain) == rv implies plain.take(n as int) == plain by {
            assert(escaped_attrs(plain).len() == plain.len());
            assert(plain.take(n as int) =~= plain);
        }
    }
    let el = XmlElement { name, attrs, malformed: None };
    assert(el.full().1 =~= view_of(el.attrs@));
    el
}

/// The elements a scan gives: every start and empty element up to the end
/// of the document, or `None` when the scan meets an error first.
pub open spec fn scan_elements(items: Seq<ScanItem>) -> Option<Seq<ElementFull>>
    decreases items.len(),
{
    if items.len() == 0 {
        Some(Seq::empty())
    } else {
        match items[0] {
            ScanItem::Element { qname, attrs, .. } => match scan_elements(items.drop_first()) {
                None => None,
                Some(rest) => Some(seq![element_full_of(qname, attrs)] + rest),
            },
            ScanItem::Eof { .. } => Some(Seq::empty()),
            ScanItem::Fail { .. } => None,
            _ => scan_elements(items.drop_first()),
        }
    }
}

/// The elements of a document as `quick_xml` reads them: every start and
/// empty element in document order, or `None` when the reader reports an
/// error.
pub open spec fn xml_elements(doc: Seq<char>) -> Option<Seq<ElementFull>> {
    scan_elements(xml_scan(doc))
}

/// The elements a scan gives before it stops, at the end of the document
/// or at an error.
pub open spec fn scan_prefix(items: Seq<ScanItem>) -> Seq<ElementFull>
    decreases items.len(),
{
    if items.len() == 0 {
        Seq::empty()
    } else {
        match items[0] {
            ScanItem::Element { qname, attrs, .. } => seq![element_full_of(qname, attrs)] + scan_prefix(items.drop_first()),
            ScanItem::Eof { .. } => Seq::empty(),
            ScanItem::Fail { .. } => Seq::empty(),
            _ => scan_prefix(items.drop_first()),
        }
    }
}

/// Whether a scan meets an error before the end of the document.
pub open spec fn scan_failed(items: Seq<ScanItem>) -> bool
    decreases items.len(),
{
    if items.len() == 0 {
        false
    } else {
        match items[0] {
            ScanItem::Eof { .. } => false,
            ScanItem::Fail { .. } => true,
            _ => scan_failed(items.drop_first()),
        }
    }
}

/// A scan gives all its elements exactly when it meets no error.
pub proof fn lemma_scan_prefix(items: Seq<ScanItem>)
    ensures
        scan_elements(items) == (if scan_failed(items) {
            None::<Seq<ElementFull>>
        } else {
            Some(scan_prefix(items))
        }),
    decreases items.len(),
{
    if items.len() > 0 {
        lemma_scan_prefix(items.drop_first());
    }
}

/// `xml` is the XML declaration followed by the text of the well-formed
/// events `es`.
pub open spec fn doc_of(xml: Seq<char>, es: Seq<XmlEvent>) -> bool {
    events_wf(es) && xml == decl_text() + render(es)
}

/// Having read `k` elements of the document of `es`: the rest of the scan
/// shows the rest of its elements, and those read so far are its first `k`,
/// read cleanly.
pub open spec fn read_so_far(es: Seq<XmlEvent>, pend: Seq<ScanItem>, done: Seq<ElementFull>) -> bool {
    &&& done.len() <= elements_of(es).len()
    &&& scan_raw(pend) == Some(raw_elements(es).skip(done.len() as int))
    &&& done == clean_all(elements_of(es).take(done.len() as int))
}

/// Every start and empty element of `xml`, in document order. End elements,
/// text, comments and the declaration are skipped. A document written as
/// the declaration and well-formed events reads back as those events'
/// elements, every attribute readable.
pub fn elements(xml: &str) -> (res: Result<Vec<XmlElement>, ProtoError>)
    ensures
        res is Ok <==> xml_elements(xml@) is Some,
        res matches Ok(es) ==> Some(elements_full(es@)) == xml_elements(xml@),
        res matches Err(e) ==> e is Xml,
        forall|es: Seq<XmlEvent>| #[trigger] doc_of(xml@, es) ==> (res matches Ok(v) && elements_full(v@) == clean_all(
            elements_of(es),
        ) && elements_view(v@) == elements_of(es)),
{
    let (out, err) = read_elements(xml);
    proof {
        lemma_scan_prefix(xml_scan(xml@));
    }
    match err {
        Some(e) => Err(e),
        None => Ok(out),
    }
}

/// The start and empty elements of `xml` read before the reader stops, and
/// the reader's error when it stops at one rather than at the end of the
/// document.
pub(crate) fn read_elements(xml: &str) -> (res: (Vec<XmlElement>, Option<ProtoError>))
    ensures
        elements_full(res.0@) == scan_prefix(xml_scan(xml@)),
        res.1 is Some <==> scan_failed(xml_scan(xml@)),
        res.1 matches Some(e) ==> e is Xml,
        forall|es: Seq<XmlEvent>| #[trigger] doc_of(xml@, es) ==> (res.1 is None && elements_full(res.0@) == clean_all(
            elements_of(es),
        ) && elements_view(res.0@) == elements_of(es)),
{
    let mut reader = xml_reader(xml);
    let mut out: Vec<XmlElement> = Vec::new();
    assert(elements_full(out@) =~= Seq::<ElementFull>::empty());
    assert(Seq::<ElementFull>::empty() + scan_prefix(xml_scan(xml@)) =~= scan_prefix(xml_scan(xml@)));
    proof {
        assert forall|es: Seq<XmlEvent>| #[trigger] doc_of(xml@, es) implies read_so_far(es, reader_pending(reader), elements_full(out@)) by {
            assert(raw_elements(es).skip(0) =~= raw_elements(es));
            assert(clean_all(elements_of(es).take(0)) =~= Seq::<ElementFull>::empty());
        }
    }
    loop
        invariant
            scan_wf(reader_pending(reader)),
            scan_prefix(xml_scan(xml@)) == elements_full(out@) + scan_prefix(reader_pending(reader)),
            scan_failed(xml_scan(xml@)) == scan_failed(reader_pending(reader)),
            forall|es: Seq<XmlEvent>| #[trigger] doc_of(xml@, es) ==> read_so_far(es, reader_pending(reader), elements_full(out@)),
        decreases reader_pending(reader).len(),
    {
        let ghost pend = reader_pending(reader);
        let ghost done = elements_full(out@);
        let step = xml_read_event(&mut reader);
        proof {
            if pend.len() > 1 {
                assert(!terminal(pend[0]));
                let rest = pend.drop_first();
                assert(rest.last() == pend.last());
                assert forall|k: int| 0 <= k < rest.len() - 1 implies !terminal(#[trigger] rest[k]) by {
                    assert(rest[k] == pend[k + 1]);
                }
            }
        }
        match step {
            Err(e) => {
                proof {
                    assert forall|es: Seq<XmlEvent>| !#[trigger] doc_of(xml@, es) by {
                        if doc_of(xml@, es) {
                            assert(read_so_far(es, pend, done));
                        }
                    }
                }
                assert(done + Seq::<ElementFull>::empty() =~= done);
                return (out, Some(e));
            },
            Ok(ReadStep::Eof) => {
                assert(done + Seq::<ElementFull>::empty() =~= done);
                proof {
                    assert forall|es: Seq<XmlEvent>| #[trigger] doc_of(xml@, es) implies elements_full(out@) == clean_all(
                        elements_of(es),
                    ) && elements_view(out@) == elements_of(es) by {
                        assert(read_so_far(es, pend, done));
                        assert(raw_elements(es).skip(done.len() as int).len() == 0);
                        assert(elements_of(es).take(done.len() as int) =~= elements_of(es));
                        lemma_cooked_clean(elements_of(es));
                        assert(elements_view(out@) =~= cooked_all(elements_full(out@)));
                    }
                }
                return (out, None);
            },
            Ok(ReadStep::Other) | Ok(ReadStep::End(_)) | Ok(ReadStep::DocType(_)) => {
                proof {
                    assert forall|es: Seq<XmlEvent>| #[trigger] doc_of(xml@, es) implies read_so_far(es, pend.drop_first(), done) by {
                        assert(read_so_far(es, pend, done));
                    }
                }
            },
            Ok(ReadStep::Element(_, qname, start)) => {
                let raw = xml_attrs(&start);
                let ghost q = qname@;
                let ghost ra = raw_attrs_view(raw@);
                proof {
                    assert forall|es: Seq<XmlEvent>| #[trigger] doc_of(xml@, es) implies {
                        let k = done.len() as int;
                        &&& k < elements_of(es).len()
                        &&& q == elements_of(es)[k].0
                        &&& ra == escaped_attrs(elements_of(es)[k].1)
                        &&& local_part(q) == q
                        &&& scan_raw(pend.drop_first()) == Some(raw_elements(es).skip(k + 1))
                    } by {
                        let k = done.len() as int;
                        assert(read_so_far(es, pend, done));
                        let rs = raw_elements(es).skip(k);
                        assert(rs.len() > 0);
                        assert(rs[0] == raw_elements(es)[k]);
                        assert(rs[0] == (q, ra));
                        assert(rs.drop_first() =~= raw_elements(es).skip(k + 1));
                        lemma_elements_named(es);
                        assert(name_ok(elements_of(es)[k].0));
                        lemma_name_plain(q);
                    }
                }
                let el = element_of(qname, raw);
                out.push(el);
                proof {
                    assert(elements_full(out@) =~= done.push(el.full()));
                    assert(done + (seq![el.full()] + scan_prefix(pend.drop_first())) =~= done.push(el.full())
                        + scan_prefix(pend.drop_first()));
                    assert forall|es: Seq<XmlEvent>| #[trigger] doc_of(xml@, es) implies read_so_far(es, pend.drop_first(), elements_full(out@)) by {
                        let k = done.len() as int;
                        assert(escaped_attrs(elements_of(es)[k].1) == ra);
                        assert(el.full() == clean_full(elements_of(es)[k]));
                        assert(elements_of(es).take(k + 1) =~= elements_of(es).take(k).push(elements_of(es)[k]));
                        assert(clean_all(elements_of(es).take(k + 1)) =~= clean_all(elements_of(es).take(k)).push(
                            clean_full(elements_of(es)[k]),
                        ));
                    }
                }
            },
        }
        proof {
            assert(pend.len() > 1) by {
                if pend.len() == 1 {
                    assert(terminal(pend.last()));
                }
            }
        }
    }
}

/// Whether the local part of an element's qualified name `qname` is `tag`.
fn raw_named(qname: &str, tag: &str) -> (b: bool)
    ensures
        b == (local_part(qname@) == tag@),
{
    let local = local_name(qname);
    str_eq(local.as_str(), tag)
}

/// What looking for the first element named `tag` in a scan finds.
pub enum Extracted {
    /// It, written back: this text.
    Found(Seq<char>),
    /// The document ends first.
    Missing,
    /// The reader reports an error first, or a piece of the element's text
    /// cannot be cut out of the document.
    Failed,
}

/// The byte offset of the reader's positions in `doc`: a leading byte-order
/// mark, which the reader skips without counting.
pub open spec fn bom_shift(doc: Seq<char>) -> nat {
    if doc.len() > 0 && doc[0] == '\u{FEFF}' {
        3
    } else {
        0
    }
}

/// The text of an end element with this name.
pub open spec fn close_text(n: Seq<char>) -> Seq<char> {
    event_text(XmlEvent::End(n))
}

/// Walk a scan of `doc` looking for the first start or empty element whose
/// local name is `tag`, `depth` elements deep into a match whose text so far
/// is `acc` (depth zero: none yet). Each event of the match is written back
/// as `quick_xml`'s writer writes the event read: its own text from the
/// document, except an end element, written from its name, and a document
/// type declaration, written from its content. The match ends with its empty
/// element or with the end element that closes it.
pub open spec fn extract_scan(doc: Seq<char>, items: Seq<ScanItem>, tag: Seq<char>, depth: nat, acc: Seq<char>) -> Extracted
    decreases items.len(),
{
    if items.len() == 0 {
        Extracted::Failed
    } else {
        let rest = items.drop_first();
        let next = if rest.len() > 0 { item_start(rest[0]) } else { 0 };
        let own = fragment_of(doc, item_start(items[0]) + bom_shift(doc), next + bom_shift(doc));
        match items[0] {
            ScanItem::Fail { .. } => Extracted::Failed,
            ScanItem::Eof { .. } => Extracted::Missing,
            ScanItem::Element { empty, qname, .. } => if depth == 0 && local_part(qname) != tag {
                extract_scan(doc, rest, tag, 0, acc)
            } else {
                match own {
                    None => Extracted::Failed,
                    Some(t) => if depth == 0 {
                        if empty {
                            Extracted::Found(acc + t)
                        } else {
                            extract_scan(doc, rest, tag, 1, acc + t)
                        }
                    } else if empty {
                        extract_scan(doc, rest, tag, depth, acc + t)
                    } else {
                        extract_scan(doc, rest, tag, depth + 1, acc + t)
                    },
                }
            },
            ScanItem::End { name, .. } => if depth == 0 {
                extract_scan(doc, rest, tag, 0, acc)
            } else if depth == 1 {
                Extracted::Found(acc + close_text(name))
            } else {
                extract_scan(doc, rest, tag, (depth - 1) as nat, acc + close_text(name))
            },
            ScanItem::DocType { content, .. } => if depth == 0 {
                extract_scan(doc, rest, tag, 0, acc)
            } else {
                extract_scan(doc, rest, tag, depth, acc + doctype_text(content))
            },
            ScanItem::Other { .. } => if depth == 0 {
                extract_scan(doc, rest, tag, 0, acc)
            } else {
                match own {
                    None => Extracted::Failed,
                    Some(t) => extract_scan(doc, rest, tag, depth, acc + t),
                }
            },
        }
    }
}

/// The text of bytes `s..e` of a document, when that range lies in it and
/// is whole UTF-8.
pub open spec fn fragment_of(doc: Seq<char>, s: nat, e: nat) -> Option<Seq<char>> {
    let b = vstd::utf8::encode_utf8(doc);
    if s <= e <= b.len() && vstd::utf8::valid_utf8(b.subrange(s as int, e as int)) {
        Some(vstd::utf8::decode_utf8(b.subrange(s as int, e as int)))
    } else {
        None
    }
}

/// What extracting `tag` from `doc` gives.
pub open spec fn extract_outcome(doc: Seq<char>, tag: Seq<char>, res: Result<Option<String>, ProtoError>) -> bool {
    match extract_scan(doc, xml_scan(doc), tag, 0, Seq::empty()) {
        Extracted::Failed => res matches Err(ProtoError::Xml(_)),
        Extracted::Missing => res matches Ok(None),
        Extracted::Found(t) => res matches Ok(Some(s)) && s@ == t,
    }
}

/// The text of bytes `from + shift .. to + shift` of `xml`.
fn fragment(xml: &str, from: u64, to: u64, shift: u64) -> (res: Option<String>)
    requires
        shift <= 3,
    ensures
        match fragment_of(xml@, (from + shift) as nat, (to + shift) as nat) {
            Some(f) => res matches Some(t) && t@ == f,
            None => res is None,
        },
{
    let bytes = xml.as_bytes();
    let n = bytes.len() as u64;
    if from > to || n < shift || to > n - shift {
        return None;
    }
    let v = crate::le::slice_to_vec(bytes, (from + shift) as usize, (to + shift) as usize);
    match crate::file::string_from_utf8(v) {
        Ok(t) => Some(t),
        Err(_) => None,
    }
}

/// Whether a document begins with a byte-order mark.
fn starts_with_bom(xml: &str) -> (b: bool)
    ensures
        b == (xml@.len() > 0 && xml@[0] == '\u{FEFF}'),
{
    if xml.unicode_len() == 0 {
        return false;
    }
    xml.get_char(0) == '\u{FEFF}'
}

/// The first `<tag>…</tag>` element (with its children) written back as a
/// standalone fragment, or `None` if no such element is present. Used to
/// lift an embedded screen tree back out of a decoded program envelope.
pub fn extract_element(xml: &str, tag: &str) -> (res: Result<Option<String>, ProtoError>)
    ensures
        extract_outcome(xml@, tag@, res),
{
    let nbytes = xml.as_bytes().len();
    let shift: u64 = if starts_with_bom(xml) { 3 } else { 0 };
    let mut reader = xml_reader(xml);
    let mut x = XmlWriter::new();
    let mut depth: usize = 0;
    let ghost total = xml_scan(xml@).len();
    loop
        invariant
            scan_wf(reader_pending(reader)),
            total == xml_scan(xml@).len(),
            total <= nbytes + 1,
            shift == bom_shift(xml@),
            depth + reader_pending(reader).len() <= total,
            extract_scan(xml@, xml_scan(xml@), tag@, 0, Seq::empty()) == extract_scan(
                xml@,
                reader_pending(reader),
                tag@,
                depth as nat,
                x@,
            ),
        decreases reader_pending(reader).len(),
    {
        let ghost pend = reader_pending(reader);
        let pos = xml_position(&reader);
        let step = xml_read_event(&mut reader);
        proof {
            if pend.len() > 1 {
                let rest = pend.drop_first();
                assert(rest.last() == pend.last());
                assert forall|k: int| 0 <= k < rest.len() - 1 implies !terminal(#[trigger] rest[k]) by {
                    assert(rest[k] == pend[k + 1]);
                }
            }
        }
        match step {
            Err(e) => {
                return Err(e);
            },
            Ok(ReadStep::Eof) => {
                return Ok(None);
            },
            Ok(ReadStep::Element(empty, qname, _)) => {
                assert(pend.len() > 1);
                if depth > 0 || raw_named(qname.as_str(), tag) {
                    let to = xml_position(&reader);
                    let own = match fragment(xml, pos, to, shift) {
                        Some(t) => t,
                        None => return Err(ProtoError::Xml(String::from_str("element lies outside the document"))),
                    };
                    x.raw(own.as_str());
                    if depth == 0 && empty {
                        return Ok(Some(x.into_string()));
                    }
                    if !empty {
                        depth = depth + 1;
                    }
                }
            },
            Ok(ReadStep::End(name)) => {
                assert(pend.len() > 1);
                if depth > 0 {
                    x.close(name.as_str());
                    depth = depth - 1;
                    if depth == 0 {
                        return Ok(Some(x.into_string()));
                    }
                }
            },
            Ok(ReadStep::DocType(c)) => {
                assert(pend.len() > 1);
                if depth > 0 {
                    x.doctype(c.as_str());
                }
            },
            Ok(ReadStep::Other) => {
                assert(pend.len() > 1);
                if depth > 0 {
                    let to = xml_position(&reader);
                    let own = match fragment(xml, pos, to, shift) {
                        Some(t) => t,
                        None => return Err(ProtoError::Xml(String::from_str("element lies outside the document"))),
                    };
                    x.raw(own.as_str());
                }
            },
        }
    }
}

/// The UTF-8 byte-order mark some firmware prepends.
pub open spec fn bom() -> Seq<u8> {
    seq![0xEFu8, 0xBBu8, 0xBFu8]
}

/// The bytes of a document with any leading byte-order mark removed.
pub open spec fn without_bom(b: Seq<u8>) -> Seq<u8> {
    if b.len() >= 3 && b.subrange(0, 3) == bom() {
        b.subrange(3, b.len() as int)
    } else {
        b
    }
}

/// `std::str::from_utf8`: the text of `b` when it is valid UTF-8. The error's
/// message is the standard library's and is not stated here.
#[verifier::external_body]
fn utf8_str(b: &[u8]) -> (res: Result<&str, String>)
    ensures
        res is Ok <==> vstd::utf8::valid_utf8(b@),
        res matches Ok(s) ==> s@ == vstd::utf8::decode_utf8(b@),
{
    std::str::from_utf8(b).map_err(|e| e.to_string())
}

/// Strip a leading UTF-8 BOM, then read the bytes as UTF-8 text.
pub fn as_str(bytes: &[u8]) -> (res: Result<String, ProtoError>)
    ensures
        vstd::utf8::valid_utf8(without_bom(bytes@)) ==> (res matches Ok(s) && s@
            == vstd::utf8::decode_utf8(without_bom(bytes@))),
        !vstd::utf8::valid_utf8(without_bom(bytes@)) ==> res matches Err(ProtoError::Xml(_)),
{
    let has_bom = bytes.len() >= 3 && bytes[0] == 0xEF && bytes[1] == 0xBB && bytes[2] == 0xBF;
    proof {
        if bytes@.len() >= 3 {
            assert(has_bom == (bytes@.subrange(0, 3) == bom())) by {
                if bytes@.subrange(0, 3) == bom() {
                    assert(bytes@.subrange(0, 3)[0] == bytes@[0]);
                    assert(bytes@.subrange(0, 3)[1] == bytes@[1]);
                    assert(bytes@.subrange(0, 3)[2] == bytes@[2]);
                }
                if has_bom {
                    assert(bytes@.subrange(0, 3) =~= bom());
                }
            }
        }
    }
    let body = if has_bom {
        crate::le::slice_to_vec(bytes, 3, bytes.len())
    } else {
        crate::le::slice_to_vec(bytes, 0, bytes.len())
    };
    assert(body@ == without_bom(bytes@));
    match utf8_str(body.as_slice()) {
        Ok(s) => Ok(String::from_str(s)),
        Err(m) => Err(ProtoError::Xml(m)),
    }
}

/// The elements a reader finds in the text of `es`: every start and empty
/// element, with its name and attributes as written.
pub open spec fn elements_of(es: Seq<XmlEvent>) -> Seq<ElementView>
    decreases es.len(),
{
    if es.len() == 0 {
        Seq::empty()
    } else {
        elements_of(es.drop_last()) + event_elements(es.last())
    }
}

/// The element one event shows a reader: itself for a start or empty
/// element, none for anything else.
pub open spec fn event_elements(e: XmlEvent) -> Seq<ElementView> {
    match e {
        XmlEvent::Start(n, a) => seq![(n, a)],
        XmlEvent::Empty(n, a) => seq![(n, a)],
        _ => Seq::empty(),
    }
}

/// One more event adds its element, if it has one.
pub proof fn lemma_elements_push(es: Seq<XmlEvent>, e: XmlEvent)
    ensures
        elements_of(es.push(e)) == elements_of(es) + event_elements(e),
{
    assert(es.push(e).drop_last() =~= es);
}

/// Finding elements in a concatenation finds those of each part, in order.
pub proof fn lemma_elements_append(a: Seq<XmlEvent>, b: Seq<XmlEvent>)
    ensures
        elements_of(a + b) == elements_of(a) + elements_of(b),
    decreases b.len(),
{
    if b.len() == 0 {
        assert(a + b =~= a);
        assert(elements_of(a) + elements_of(b) =~= elements_of(a));
    } else {
        lemma_elements_append(a, b.drop_last());
        assert((a + b).drop_last() =~= a + b.drop_last());
        assert((a + b).last() == b.last());
    }
}

/// The elements of a run of empty elements are those elements themselves.
pub proof fn lemma_elements_of_empties(es: Seq<XmlEvent>)
    requires
        forall|i: int| 0 <= i < es.len() ==> #[trigger] es[i] is Empty,
    ensures
        elements_of(es) == es.map_values(|e: XmlEvent| (e->Empty_0, e->Empty_1)),
    decreases es.len(),
{
    if es.len() > 0 {
        assert forall|i: int| 0 <= i < es.drop_last().len() implies #[trigger] es.drop_last()[i] is Empty by {
            assert(es.drop_last()[i] == es[i]);
        }
        lemma_elements_of_empties(es.drop_last());
        assert(es[es.len() - 1] is Empty);
        assert(es.map_values(|e: XmlEvent| (e->Empty_0, e->Empty_1)) =~= es.drop_last().map_values(
            |e: XmlEvent| (e->Empty_0, e->Empty_1),
        ) + event_elements(es.last()));
    }
}

/// Fold `step` over elements, left to right, starting from `init`.
pub open spec fn scan<S, E>(init: S, es: Seq<E>, step: spec_fn(S, E) -> S) -> S
    decreases es.len(),
{
    if es.len() == 0 {
        init
    } else {
        step(scan(init, es.drop_last(), step), es.last())
    }
}

/// Scanning a concatenation scans the second part from where the first ended.
pub proof fn lemma_scan_append<S, E>(
    init: S,
    a: Seq<E>,
    b: Seq<E>,
    step: spec_fn(S, E) -> S,
)
    ensures
        scan(init, a + b, step) == scan(scan(init, a, step), b, step),
    decreases b.len(),
{
    if b.len() == 0 {
        assert(a + b =~= a);
    } else {
        lemma_scan_append(init, a, b.drop_last(), step);
        assert((a + b).drop_last() =~= a + b.drop_last());
    }
}

/// Scanning one more element takes one more step.
pub proof fn lemma_scan_push<S, E>(init: S, es: Seq<E>, e: E, step: spec_fn(S, E) -> S)
    ensures
        scan(init, es.push(e), step) == step(scan(init, es, step), e),
{
    assert(es.push(e).drop_last() =~= es);
}

/// One more element extends a scan by one step.
pub proof fn lemma_scan_take<S, E>(init: S, es: Seq<E>, i: int, step: spec_fn(S, E) -> S)
    requires
        0 <= i < es.len(),
    ensures
        scan(init, es.take(i + 1), step) == step(scan(init, es.take(i), step), es[i]),
{
    assert(es.take(i + 1).drop_last() =~= es.take(i));
}

} // verus!
