//! The kinds of fault that decoding can report.

use vstd::prelude::*;

verus! {

/// What can be wrong with a stream, a frame or a field.
///
/// A fault is reported beside what could still be decoded; only `FrameTooLarge`
/// stops a direction.
#[derive(Clone, Copy, Debug, PartialEq, Eq, Structural)]
pub enum Fault {
    /// A frame declares more bytes than the configured maximum frame size allows.
    FrameTooLarge,
    /// The payload ends before a field of its schema is complete.
    TruncatedPayload,
    /// A field's bytes do not encode a value of its kind.
    InvalidEncoding,
    /// No command is registered under the code of the request.
    UnknownCommandCode,
    /// A response arrived while no request was waiting for one.
    UnmatchedResponse,
    /// The connection closed while a request was still waiting for its response.
    UnansweredRequest,
}

} // verus!
