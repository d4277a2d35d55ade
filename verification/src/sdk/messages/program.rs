//! `AddProgram` / `UpdateProgram` / `DeleteProgram` / `GetProgram`: the
//! method envelopes for pushing and reading screen content.
//!
//! The `Screen → Program → Area → Item` tree and its serialization belong to
//! the screen builder. This layer only carries the screen tree as an opaque,
//! pre-built XML fragment; it does not interpret it. An empty `AddProgram`
//! (no screen) is how the firmware clears all programs.

use vstd::prelude::*;
use crate::sdk::xml::ElementFull;
use crate::error::ProtoError;
use crate::sdk::envelope::{doc_text, encode_request, envelope_text, lemma_envelope_render, request_bytes, SdkReply};
use crate::sdk::messages::{decode_checked, decodes_to, decodes_with};
use crate::sdk::method::SdkMethod;
use crate::sdk::xml::{extract_element, extract_scan, xml_scan, ElementView, Extracted, XmlWriter};

verus! {

/// Body-less `GetProgram` request. The reply's screen tree is left opaque here.
#[derive(Debug, Clone, Copy, PartialEq, Eq, Default)]
pub struct GetProgram;

impl GetProgram {
    /// Encode as a request document.
    pub fn encode_request(&self, guid: &str) -> (res: Result<Vec<u8>, ProtoError>)
        ensures
            res matches Ok(b) && b@ == request_bytes(guid@, SdkMethod::GetProgram, Seq::empty()),
    {
        proof {
            reveal_strlit("");
            lemma_envelope_render(guid@, "in"@, SdkMethod::GetProgram, None, Seq::empty());
        }
        encode_request(guid, SdkMethod::GetProgram, "")
    }

    /// Decode a document, surfacing any device error.
    pub fn decode(bytes: &[u8]) -> (res: Result<GetProgram, ProtoError>)
        ensures
            decodes_to(bytes@, res, |f: ElementFull| true, |v: GetProgram, es: Seq<ElementView>| true),
    {
        match decode_checked(bytes) {
            Ok(_) => Ok(GetProgram),
            Err(e) => Err(e),
        }
    }
}

/// Body-less `DeleteProgram` request: removes all programs.
#[derive(Debug, Clone, Copy, PartialEq, Eq, Default)]
pub struct DeleteProgram;

impl DeleteProgram {
    /// Encode as a request document.
    pub fn encode_request(&self, guid: &str) -> (res: Result<Vec<u8>, ProtoError>)
        ensures
            res matches Ok(b) && b@ == request_bytes(guid@, SdkMethod::DeleteProgram, Seq::empty()),
    {
        proof {
            reveal_strlit("");
            lemma_envelope_render(guid@, "in"@, SdkMethod::DeleteProgram, None, Seq::empty());
        }
        encode_request(guid, SdkMethod::DeleteProgram, "")
    }

    /// Decode a document, surfacing any device error.
    pub fn decode(bytes: &[u8]) -> (res: Result<DeleteProgram, ProtoError>)
        ensures
            decodes_to(bytes@, res, |f: ElementFull| true, |v: DeleteProgram, es: Seq<ElementView>| true),
    {
        match decode_checked(bytes) {
            Ok(_) => Ok(DeleteProgram),
            Err(e) => Err(e),
        }
    }
}

/// Carries a pre-built `<screen>` tree for `AddProgram` / `UpdateProgram`.
///
/// The `screen` string must be a well-formed `<screen>…</screen>` fragment;
/// an empty string sends an empty program set.
#[derive(Debug, Clone, PartialEq, Eq)]
pub struct ProgramPush {
    method: SdkMethod,
    /// The serialized screen tree, or empty to clear.
    pub screen: String,
}

impl View for ProgramPush {
    type V = (SdkMethod, Seq<char>);

    /// The targeted method and the screen fragment.
    closed spec fn view(&self) -> (SdkMethod, Seq<char>) {
        (self.method, self.screen@)
    }
}

impl ProgramPush {
    /// An `AddProgram` push (replaces all programs with `screen`).
    pub fn add(screen: &str) -> (p: ProgramPush)
        ensures
            p@ == (SdkMethod::AddProgram, screen@),
    {
        ProgramPush { method: SdkMethod::AddProgram, screen: String::from_str(screen) }
    }

    /// An `UpdateProgram` push.
    pub fn update(screen: &str) -> (p: ProgramPush)
        ensures
            p@ == (SdkMethod::UpdateProgram, screen@),
    {
        ProgramPush { method: SdkMethod::UpdateProgram, screen: String::from_str(screen) }
    }

    /// The method (`AddProgram` or `UpdateProgram`) this push targets.
    pub fn method(&self) -> (m: SdkMethod)
        ensures
            m == self@.0,
    {
        self.method
    }

    /// Write the screen fragment verbatim; an empty screen writes nothing.
    fn write_screen(&self, x: &mut XmlWriter)
        ensures
            final(x)@ == old(x)@ + self@.1,
    {
        if !self.screen.as_str().is_empty() {
            x.raw(self.screen.as_str());
        } else {
            assert(old(x)@ + self.screen@ =~= old(x)@);
        }
    }

    /// Write the body: the screen fragment, verbatim.
    pub fn write_body(&self, x: &mut XmlWriter) -> (res: Result<(), ProtoError>)
        ensures
            res is Ok,
            final(x)@ == old(x)@ + self@.1,
    {
        self.write_screen(x);
        Ok(())
    }

    /// Encode as a request that honors this push's own method, so one type
    /// serves both `AddProgram` and `UpdateProgram`.
    pub fn encode(&self, guid: &str) -> (res: Result<Vec<u8>, ProtoError>)
        ensures
            res matches Ok(b) && b@ == vstd::utf8::encode_utf8(envelope_text(guid@, "in"@, self@.0, None, self@.1)),
    {
        let mut x = XmlWriter::new();
        self.write_screen(&mut x);
        let body = x.into_string();
        assert(body@ =~= self@.1);
        encode_request(guid, self.method, body.as_str())
    }

    /// Encode as an `AddProgram` request, whatever this push's own method.
    pub fn encode_request(&self, guid: &str) -> (res: Result<Vec<u8>, ProtoError>)
        ensures
            res matches Ok(b) && b@ == vstd::utf8::encode_utf8(envelope_text(guid@, "in"@, SdkMethod::AddProgram, None, self@.1)),
    {
        let mut x = XmlWriter::new();
        self.write_screen(&mut x);
        let body = x.into_string();
        assert(body@ =~= self@.1);
        encode_request(guid, SdkMethod::AddProgram, body.as_str())
    }

    /// Read the push back out of a decoded envelope: its method, and the first
    /// `<screen>` element written back, or an empty screen when
    /// there is none.
    pub fn parse_body(reply: &SdkReply) -> (res: Result<ProgramPush, ProtoError>)
        ensures
            match screen_fragment(reply.raw@) {
                Some(f) => res matches Ok(p) && p@ == (reply.method, f),
                None => res matches Err(ProtoError::Xml(_)),
            },
    {
        let screen = match extract_element(reply.raw.as_str(), "screen") {
            Ok(Some(s)) => s,
            Ok(None) => String::new(),
            Err(e) => return Err(e),
        };
        proof {
            reveal_strlit("screen");
        }
        Ok(ProgramPush { method: reply.method, screen })
    }

    /// Decode a request, recovering the method and the embedded screen
    /// fragment, first surfacing any device error.
    pub fn decode(bytes: &[u8]) -> (res: Result<ProgramPush, ProtoError>)
        ensures
            decodes_with(bytes@, res, |r: Result<ProgramPush, ProtoError>, m: SdkMethod, es: Seq<ElementFull>|
                match screen_fragment(doc_text(bytes@)) {
                    Some(f) => r matches Ok(p) && p@ == (m, f),
                    None => r matches Err(ProtoError::Xml(_)),
                }),
    {
        let reply = match decode_checked(bytes) {
            Ok(r) => r,
            Err(e) => return Err(e),
        };
        Self::parse_body(&reply)
    }
}

/// The screen fragment a program document carries: the first `<screen>`
/// element written back, empty when there is none, or `None`
/// when the document cannot be read that far.
pub open spec fn screen_fragment(raw: Seq<char>) -> Option<Seq<char>> {
    match extract_scan(raw, xml_scan(raw), "screen"@, 0, Seq::empty()) {
        Extracted::Failed => None,
        Extracted::Missing => Some(Seq::empty()),
        Extracted::Found(t) => Some(t),
    }
}

} // verus!
