//! The error types: `ProtoError` for the wire layer, `Error` for the client.

use vstd::prelude::*;

verus! {

/// `std::io::Error`, carried through as an opaque value.
#[verifier::external_type_specification]
#[verifier::external_body]
pub struct ExIoError(std::io::Error);

/// Errors produced while framing, decoding, or reassembling wire messages.
#[derive(Debug)]
#[allow(inconsistent_fields)]
pub enum ProtoError {
    /// An underlying transport I/O error.
    Io(std::io::Error),
    /// A frame or payload was shorter than the minimum its shape requires.
    ShortFrame { expected: usize, got: usize },
    /// The command field held a value we do not recognize.
    UnknownCmd(u16),
    /// A frame's payload exceeds what its length field can describe.
    FrameTooLarge(usize),
    /// An SDK fragment did not arrive at the next expected byte offset.
    FragmentGap { expected: u32, got: u32 },
    /// An SDK fragment would push the reassembled buffer past its declared length.
    FragmentOverflow { total: u32, offset: u32, chunk: usize },
    /// A malformed or unexpected XML document.
    Xml(String),
    /// The device answered an SDK command with a failure result.
    SdkError { method: String, result: crate::sdk::result::SdkResult },
    /// An HD2020 framing or bitmap encoding failure.
    Hd2020(String),
}

/// Which wire protocol a connected device speaks.
#[derive(Debug, Clone, Copy, PartialEq, Eq, Structural)]
pub enum ProtocolKind {
    /// SDK 2.0 XML command protocol.
    Sdk2,
    /// HD2020 Gen6 realtime protocol.
    Hd2020,
}

/// Everything the client can fail with.
#[derive(Debug)]
pub enum Error {
    /// An underlying transport I/O error.
    Io(std::io::Error),
    /// A framing, codec, XML, or device-level protocol error.
    Proto(ProtoError),
    /// A reply frame carried a command code the current step did not expect.
    UnexpectedReply { expected: u16, got: u16 },
    /// The connection closed before a reply arrived.
    ConnectionClosed,
    /// A previous command was cancelled mid-round-trip; reconnect.
    Poisoned,
    /// A handshake phase (1, 2 or 3) failed.
    Handshake { phase: u8, source: Box<Error> },
    /// A command was invoked that the connected protocol does not support.
    UnsupportedForProtocol(ProtocolKind),
    /// A round-trip did not complete within the configured timeout.
    Timeout(std::time::Duration),
    /// The device rejected a file-upload step with a non-zero code.
    Upload { stage: UploadStage, code: u16 },
}

/// The file-upload step a device rejection came from.
#[derive(Debug, Clone, Copy, PartialEq, Eq, Structural)]
pub enum UploadStage {
    Start,
    Content,
    End,
}

/// Result specialized to the client's [`Error`].
pub type Result<T> = core::result::Result<T, Error>;

} // verus!
