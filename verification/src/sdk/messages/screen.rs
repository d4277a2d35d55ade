//! `OpenScreen` / `CloseScreen`: light the panel or blank it immediately.
//!
//! Both are body-less commands; the device answers with a result-only `<out>`.

use vstd::prelude::*;
use crate::sdk::xml::ElementFull;
use crate::error::ProtoError;
use crate::sdk::envelope::{encode_request, lemma_envelope_render, request_bytes};
use crate::sdk::messages::{decode_checked, decodes_to};
use crate::sdk::method::SdkMethod;
use crate::sdk::xml::ElementView;

verus! {

/// Turn the screen on now.
#[derive(Debug, Clone, Copy, PartialEq, Eq, Default)]
pub struct OpenScreen;

impl OpenScreen {
    /// Encode as a request document.
    pub fn encode_request(&self, guid: &str) -> (res: Result<Vec<u8>, ProtoError>)
        ensures
            res matches Ok(b) && b@ == request_bytes(guid@, SdkMethod::OpenScreen, Seq::empty()),
    {
        proof {
            reveal_strlit("");
            lemma_envelope_render(guid@, "in"@, SdkMethod::OpenScreen, None, Seq::empty());
        }
        encode_request(guid, SdkMethod::OpenScreen, "")
    }

    /// Decode a document, surfacing any device error.
    pub fn decode(bytes: &[u8]) -> (res: Result<OpenScreen, ProtoError>)
        ensures
            decodes_to(bytes@, res, |f: ElementFull| true, |v: OpenScreen, es: Seq<ElementView>| true),
    {
        match decode_checked(bytes) {
            Ok(_) => Ok(OpenScreen),
            Err(e) => Err(e),
        }
    }
}

/// Blank the screen now (LEDs off; the panel is not powered down).
#[derive(Debug, Clone, Copy, PartialEq, Eq, Default)]
pub struct CloseScreen;

impl CloseScreen {
    /// Encode as a request document.
    pub fn encode_request(&self, guid: &str) -> (res: Result<Vec<u8>, ProtoError>)
        ensures
            res matches Ok(b) && b@ == request_bytes(guid@, SdkMethod::CloseScreen, Seq::empty()),
    {
        proof {
            reveal_strlit("");
            lemma_envelope_render(guid@, "in"@, SdkMethod::CloseScreen, None, Seq::empty());
        }
        encode_request(guid, SdkMethod::CloseScreen, "")
    }

    /// Decode a document, surfacing any device error.
    pub fn decode(bytes: &[u8]) -> (res: Result<CloseScreen, ProtoError>)
        ensures
            decodes_to(bytes@, res, |f: ElementFull| true, |v: CloseScreen, es: Seq<ElementView>| true),
    {
        match decode_checked(bytes) {
            Ok(_) => Ok(CloseScreen),
            Err(e) => Err(e),
        }
    }
}

} // verus!
