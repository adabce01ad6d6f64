//! The bridge's error taxonomy. Every failure is local to one call and
//! names the step that failed; a caller sees only the error's class, an
//! internal failure or a capability that does not exist yet.

use vstd::prelude::*;

verus! {

/// Why the transport failed to carry a message or a reply.
#[derive(Debug, Clone, Copy, PartialEq, Eq, Structural)]
pub enum TransportFault {
    /// The transport is no longer connected to its peer.
    Disconnected,
    /// The transport gave up waiting on its peer.
    TimedOut,
    /// Any other failure the transport reports.
    Other,
}

/// The step of a bridge call at which the transport failed.
#[derive(Debug, Clone, Copy, PartialEq, Eq, Structural)]
pub enum TransportStage {
    /// Handing the tagged request to the transport.
    Send,
    /// Waiting on the pending reply.
    Resolve,
}

/// The envelope whose decoding failed.
#[derive(Debug, Clone, Copy, PartialEq, Eq, Structural)]
pub enum DecodeStage {
    /// The reply declared a kind other than the one the request expects:
    /// a mismatched kind is a decode error, never silently coerced.
    ReplyKind,
    /// The reply envelope itself.
    Reply,
    /// The encoded header blob nested inside a block record.
    NestedHeader,
}

/// Everything a bridge call can fail with. None of these is retried by
/// the bridge, and none leaves state behind.
#[derive(Debug, Clone, Copy, PartialEq, Eq, Structural)]
pub enum BridgeError {
    /// The request envelope could not be encoded. Defensive: this crate's
    /// encoder is total, so no bridge operation of this crate reports it.
    Serialization,
    /// Sending the request or resolving its reply failed at the transport
    /// boundary.
    Transport(TransportStage, TransportFault),
    /// The reply bytes did not parse under the expected schema.
    Decode(DecodeStage),
    /// A query owed at least one record got none: a contract violation by
    /// the peer, never a legitimate empty answer.
    EmptyResult,
    /// The query kind is recognised but not yet backed by a bridge
    /// operation.
    NotImplemented,
}

/// What an external caller may learn of a failure.
#[derive(Debug, Clone, Copy, PartialEq, Eq, Structural)]
pub enum ErrorClass {
    /// Some step of the call failed at runtime.
    Internal,
    /// The capability does not exist yet.
    Unimplemented,
}

impl BridgeError {
    /// The caller-facing class of this error: `NotImplemented` is the one
    /// error that is not an internal failure.
    pub open spec fn class_spec(self) -> ErrorClass {
        if self is NotImplemented {
            ErrorClass::Unimplemented
        } else {
            ErrorClass::Internal
        }
    }

    /// Returns the caller-facing class of this error.
    pub fn class(&self) -> (c: ErrorClass)
        ensures
            c == self.class_spec(),
    {
        match self {
            BridgeError::NotImplemented => ErrorClass::Unimplemented,
            _ => ErrorClass::Internal,
        }
    }

    /// A short description naming the step that failed, for diagnostics.
    pub fn describe(&self) -> (s: &'static str)
        ensures
            *self is Serialization ==> s@ == "serialization failed"@,
            *self is Transport && self->Transport_0 is Send ==> s@ == "transport send failed"@,
            *self is Transport && self->Transport_0 is Resolve
                ==> s@ == "transport resolve failed"@,
            *self is Decode && self->Decode_0 is ReplyKind ==> s@ == "response kind mismatch"@,
            *self is Decode && self->Decode_0 is Reply ==> s@ == "response parse failed"@,
            *self is Decode && self->Decode_0 is NestedHeader
                ==> s@ == "block header parse failed"@,
            *self is EmptyResult ==> s@ == "expected at least one result"@,
            *self is NotImplemented ==> s@ == "not implemented"@,
    {
        match self {
            BridgeError::Serialization => "serialization failed",
            BridgeError::Transport(TransportStage::Send, _) => "transport send failed",
            BridgeError::Transport(TransportStage::Resolve, _) => "transport resolve failed",
            BridgeError::Decode(DecodeStage::ReplyKind) => "response kind mismatch",
            BridgeError::Decode(DecodeStage::Reply) => "response parse failed",
            BridgeError::Decode(DecodeStage::NestedHeader) => "block header parse failed",
            BridgeError::EmptyResult => "expected at least one result",
            BridgeError::NotImplemented => "not implemented",
        }
    }
}

} // verus!
