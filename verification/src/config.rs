//! Client configuration: a plain struct with `Default`.

use vstd::prelude::*;

verus! {

/// `std::time::Duration::from_secs`: a span of whole seconds. The value is
/// opaque here; nothing is stated of it.
#[verifier::external_body]
fn duration_from_secs(secs: u64) -> std::time::Duration {
    std::time::Duration::from_secs(secs)
}

/// `Duration`'s `Clone`: `Duration` is `Copy`, so the clone is the same span.
pub assume_specification[<std::time::Duration as Clone>::clone](d: &std::time::Duration) -> (r: std::time::Duration)
    ensures
        r == *d,
;

/// Tunables for a connected device. Construct with `Default` and
/// struct-update syntax.
#[derive(Debug, Clone)]
pub struct DeviceConfig {
    /// Per-round-trip deadline for a reply.
    pub timeout: std::time::Duration,
    /// Interval between background heartbeat pings.
    pub heartbeat: std::time::Duration,
    /// Maximum bytes per file-upload chunk.
    pub upload_chunk_size: usize,
    /// Maximum XML bytes per SDK fragment before the payload is split.
    pub sdk_fragment_size: usize,
    /// How many times a rejected upload chunk is re-sent before giving up.
    pub upload_retries: u32,
}

impl Default for DeviceConfig {
    /// A 5-second reply deadline, a 30-second heartbeat, 8000-byte upload
    /// chunks and SDK fragments, and 3 chunk retries.
    fn default() -> (c: DeviceConfig)
        ensures
            c.upload_chunk_size == 8000,
            c.sdk_fragment_size == 8000,
            c.upload_retries == 3,
    {
        DeviceConfig {
            timeout: duration_from_secs(5),
            heartbeat: duration_from_secs(30),
            upload_chunk_size: 8000,
            sdk_fragment_size: 8000,
            upload_retries: 3,
        }
    }
}

} // verus!
