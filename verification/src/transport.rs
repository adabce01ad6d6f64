//! The message transport's contract, as the bridge consumes it: send one
//! correlation-tagged request, get a handle that resolves to the matching
//! reply. The transport itself — queueing, routing, network I/O — is an
//! external collaborator implementing these traits.

use vstd::prelude::*;
use crate::error::TransportFault;

verus! {

/// The kinds of message this bridge exchanges with its peer, a fixed
/// enumeration shared with the remote side.
#[derive(Debug, Clone, Copy, PartialEq, Eq, Structural)]
pub enum MessageKind {
    /// A request to list blocks, most recent first.
    BlockListRequest,
    /// The reply to a block-listing request.
    BlockListResponse,
}

impl MessageKind {
    /// The kind's code on the wire.
    pub open spec fn code_spec(self) -> u32 {
        match self {
            MessageKind::BlockListRequest => 102,
            MessageKind::BlockListResponse => 103,
        }
    }

    /// Returns the kind's code on the wire.
    pub fn code(&self) -> (c: u32)
        ensures
            c == self.code_spec(),
    {
        match self {
            MessageKind::BlockListRequest => 102,
            MessageKind::BlockListResponse => 103,
        }
    }
}

/// One resolved reply: the kind the peer declared for it, and the raw
/// bytes of the reply envelope.
#[derive(Debug, Clone, PartialEq, Eq)]
pub struct RawReply {
    pub kind_code: u32,
    pub payload: Vec<u8>,
}

/// An in-flight request awaiting its matching reply. Resolving consumes
/// the handle: at most one reply is ever delivered per correlation token.
pub trait PendingReply: Sized {
    /// Blocks until the reply bearing this handle's correlation token
    /// arrives, yielding its declared kind and raw payload, or until the
    /// transport reports failure. The one suspension point of a bridge call.
    fn resolve(self) -> Result<RawReply, TransportFault>;
}

/// The capability the bridge consumes. An implementation must be safe for
/// concurrent use from many call contexts and must deliver at most one
/// reply per correlation token, to the handle it returned for that token.
pub trait MessageSender {
    type Reply: PendingReply;

    /// Hands one tagged request to the transport; on success the returned
    /// handle resolves to the reply bearing the same correlation token.
    fn send(&mut self, kind: MessageKind, correlation_id: &str, payload: &[u8]) -> Result<
        Self::Reply,
        TransportFault,
    >;
}

} // verus!
