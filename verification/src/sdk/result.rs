//! The `result` attribute a device stamps on every `<out>` reply.

use vstd::prelude::*;
use crate::fmt::str_eq;

verus! {

/// The `result="…"` code from an SDK reply, e.g. `kSuccess` or
/// `kParseXmlFailed`, kept as the raw device string: the full `k*` set is
/// firmware-defined and open-ended, so an unknown code round-trips intact.
#[derive(Debug, Clone, PartialEq, Eq)]
pub struct SdkResult(pub String);

impl View for SdkResult {
    type V = Seq<char>;

    open spec fn view(&self) -> Seq<char> {
        self.0@
    }
}

/// The one code that means the command succeeded.
pub open spec fn success_code() -> Seq<char> {
    "kSuccess"@
}

impl SdkResult {
    /// The one code that means the command succeeded.
    pub const SUCCESS: &'static str = "kSuccess";

    /// Wrap a raw result string.
    pub fn new(code: String) -> (r: SdkResult)
        ensures
            r@ == code@,
    {
        SdkResult(code)
    }

    /// Wrap a raw result string slice.
    pub fn from(code: &str) -> (r: SdkResult)
        ensures
            r@ == code@,
    {
        SdkResult(String::from_str(code))
    }

    /// The success result, ready to stamp on an `<out>`.
    pub fn success() -> (r: SdkResult)
        ensures
            r@ == success_code(),
    {
        SdkResult(String::from_str("kSuccess"))
    }

    /// The raw result code as written on the wire.
    pub fn as_str(&self) -> (s: &str)
        ensures
            s@ == self@,
    {
        self.0.as_str()
    }

    /// The raw result code as an owned string.
    pub fn to_string(&self) -> (s: String)
        ensures
            s@ == self@,
    {
        String::from_str(self.0.as_str())
    }

    /// Whether the device reported success.
    pub fn is_success(&self) -> (b: bool)
        ensures
            b == (self@ == success_code()),
    {
        str_eq(self.0.as_str(), "kSuccess")
    }
}

} // verus!
