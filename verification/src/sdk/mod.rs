//! SDK 2.0 command layer: method names, result codes, the XML envelope and
//! the typed method bodies.

pub mod result;
pub mod xml;
pub mod method;
pub mod envelope;
pub mod messages;

pub use envelope::{decode_reply, encode_reply, encode_request, SdkReply, PLACEHOLDER_GUID};
pub use method::SdkMethod;
pub use result::SdkResult;
