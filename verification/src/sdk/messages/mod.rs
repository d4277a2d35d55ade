//! Typed request and reply bodies for the SDK 2.0 methods.
//!
//! Every message type names its method, writes its body with an
//! [`XmlWriter`](crate::sdk::xml::XmlWriter) and reads itself back out of a
//! decoded [`SdkReply`] by scanning the document's elements. Info types that
//! back both a setter and a getter (ethernet, time, luminance, …) serve both
//! directions: the body they write is the setter's request body and also the
//! getter's reply body, and parsing reads it back either way.
//!
//! Each body type states, as a proof function, that scanning the elements of
//! any envelope it was written into gives the written value back.

use vstd::prelude::*;
use crate::error::ProtoError;
use crate::fmt::{bool_text, dec, is_true_text, parse_uint_spec, trim, lemma_parse_dec};
use crate::sdk::envelope::{decode_reply, decoded_reply, doc_elements, doc_text, no_method_msg, result_view, reply_outcome, HeadErr, ReplyOutcome, SdkReply};
use crate::sdk::method::{method_name, unknown_method_msg, SdkMethod};
use crate::sdk::result::success_code;
use crate::sdk::xml::{ElementFull, ElementView, XmlEvent, clean_all, cooked_all, doc_of, elements_of, elements_view, lemma_elements_view_full, reads_all, without_bom};

pub mod boot_logo;
pub mod device_info;
pub mod files;
pub mod luminance;
pub mod network;
pub mod program;
pub mod screen;
pub mod server;
pub mod switch_time;
pub mod time;

verus! {

/// The reply reports success, or carries no result at all (a request echo).
pub open spec fn reply_ok(rep: SdkReply) -> bool {
    match rep.result {
        Some(r) => r@ == success_code(),
        None => true,
    }
}

/// A result code that reports success, or no result code at all.
pub open spec fn result_ok(r: Option<Seq<char>>) -> bool {
    match r {
        Some(c) => c == success_code(),
        None => true,
    }
}

/// What decoding `bytes` as a message gives. A document that is not UTF-8
/// text or that `quick_xml` rejects gives an XML error; one whose method is
/// missing or not modelled gives the envelope's error; an attribute the
/// header needs that cannot be read gives an XML error; a failure code gives
/// the device's failure as `SdkError`; then, when every element passes
/// `reads` (the lookups the message makes on it succeed), the value is one
/// that `body` accepts for the document's elements, and otherwise an XML
/// error.
pub open spec fn decodes_to<T>(
    bytes: Seq<u8>,
    res: Result<T, ProtoError>,
    reads: spec_fn(ElementFull) -> bool,
    body: spec_fn(T, Seq<ElementView>) -> bool,
) -> bool {
    decodes_with(bytes, res, |r: Result<T, ProtoError>, m: SdkMethod, fs: Seq<ElementFull>| if reads_all(fs, reads) {
        r matches Ok(v) && body(v, cooked_all(fs))
    } else {
        r matches Err(ProtoError::Xml(_))
    })
}

/// What decoding `bytes` gives for a message whose own reading may fail:
/// as [`decodes_to`], except that a successful envelope with method `m` and
/// elements `fs` leaves the whole result to `body(res, m, fs)`.
pub open spec fn decodes_with<T>(
    bytes: Seq<u8>,
    res: Result<T, ProtoError>,
    body: spec_fn(Result<T, ProtoError>, SdkMethod, Seq<ElementFull>) -> bool,
) -> bool {
    match reply_outcome(bytes) {
        ReplyOutcome::Unread => res matches Err(ProtoError::Xml(_)),
        ReplyOutcome::Stopped(HeadErr::Unknown(name)) => res matches Err(ProtoError::Xml(m)) && m@ == unknown_method_msg(name),
        ReplyOutcome::Stopped(HeadErr::Unreadable) => res matches Err(ProtoError::Xml(_)),
        ReplyOutcome::Head((g, None, r), fs) => res matches Err(ProtoError::Xml(m)) && m@ == no_method_msg(),
        ReplyOutcome::Head((g, Some(m), r), fs) => if result_ok(r) {
            body(res, m, fs)
        } else {
            res matches Err(ProtoError::SdkError { method, result }) && method@ == method_name(m)
                && r == Some(result@)
        },
    }
}

/// Decode a document and surface any device error: the shared first half of
/// every message's `decode`.
pub fn decode_checked(bytes: &[u8]) -> (res: Result<SdkReply, ProtoError>)
    ensures
        decodes_to(bytes@, res, |f: ElementFull| true, |v: SdkReply, es: Seq<ElementView>| elements_view(v.elements@) == es),
        res matches Ok(rep) ==> decoded_reply(bytes@, rep) && reply_ok(rep),
        forall|es: Seq<XmlEvent>| #[trigger] doc_of(doc_text(bytes@), es) && vstd::utf8::valid_utf8(without_bom(bytes@))
            ==> doc_elements(bytes@) == Some(clean_all(elements_of(es))),
{
    let reply = match decode_reply(bytes) {
        Ok(r) => r,
        Err(e) => return Err(e),
    };
    proof {
        lemma_elements_view_full(reply.elements@);
    }
    match reply.check() {
        Ok(()) => Ok(reply),
        Err(e) => {
            assert(decoded_reply(bytes@, reply));
            Err(e)
        },
    }
}

/// `cur` when the attribute is missing, else its value.
pub open spec fn or_keep<A>(cur: A, v: Option<A>) -> A {
    match v {
        Some(x) => x,
        None => cur,
    }
}

/// A trimmed unsigned number no larger than `max`, or `default`: the lenient
/// reading the firmware's `sscanf` gives.
pub open spec fn int_or(s: Seq<char>, default: int, max: int) -> int {
    match parse_uint_spec(trim(s), max) {
        Some(n) => n as int,
        None => default,
    }
}

/// `cur` when the attribute is missing, else its lenient number.
pub open spec fn num_or(cur: int, v: Option<Seq<char>>, default: int, max: int) -> int {
    match v {
        Some(s) => int_or(s, default, max),
        None => cur,
    }
}

/// `cur` when the attribute is missing, else whether it reads as `true`.
pub open spec fn bool_or(cur: bool, v: Option<Seq<char>>) -> bool {
    match v {
        Some(s) => is_true_text(s),
        None => cur,
    }
}

/// A boolean written as `true` or `false` reads back as itself.
pub proof fn lemma_bool_text(b: bool)
    ensures
        is_true_text(bool_text(b)) == b,
{
}

/// A number written in decimal reads back as itself.
pub proof fn lemma_int_or_dec(n: nat, default: int, max: int)
    requires
        n <= max,
    ensures
        int_or(dec(n), default, max) == n,
{
    lemma_parse_dec(n, max);
}

} // verus!
