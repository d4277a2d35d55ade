//! Protocol probing at connect time.
//!
//! HD2020 Gen6 and SDK 2.0 share the same TCP port but are otherwise separate
//! wire protocols. The version handshake runs first on the bare socket and
//! doubles as the probe: [`classify`] reads the reply payload and decides
//! which protocol owns the connection.

use vstd::prelude::*;
use crate::error::ProtocolKind;
use crate::hd2020::frame::START;

verus! {

/// The protocol a probe reply's payload reveals: an HD2020 Gen6 controller
/// leads with the HD2020 start byte; anything else, including the empty
/// payload an SDK 2.0 device sends, is SDK 2.0.
pub open spec fn probe_kind(payload: Seq<u8>) -> ProtocolKind {
    if payload.len() > 0 && payload[0] == START {
        ProtocolKind::Hd2020
    } else {
        ProtocolKind::Sdk2
    }
}

/// Classify a device from its version-probe reply payload.
pub fn classify(payload: &[u8]) -> (k: ProtocolKind)
    ensures
        k == probe_kind(payload@),
{
    if payload.len() > 0 && payload[0] == START {
        ProtocolKind::Hd2020
    } else {
        ProtocolKind::Sdk2
    }
}

} // verus!
