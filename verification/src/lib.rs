//! A synchronous query bridge over an asynchronous, correlation-tagged
//! message transport.
//!
//! A caller issues one logical query; the bridge builds a binary request
//! envelope, tags it with a fresh correlation token, hands it to the
//! transport, blocks until the matching reply arrives, decodes the reply
//! envelope (including nested encoded blobs) and translates the result
//! into a caller-facing value or a well-typed error.

pub mod bridge;
pub mod codec;
pub mod envelope;
pub mod error;
pub mod hex;
pub mod token;
pub mod transport;
pub mod wire;
