//! Typed framing for wire messages: what a node or client puts on a link
//! for one `TorMessage`, and what it reads back.
//!
//! The wrapper type carries a transport for the unverified connection code
//! to drive. A written message is its serialized form inside one
//! length-prefixed frame; reading goes through `take_frame` and
//! `deserialize_tor_message`.

use vstd::prelude::*;

use crate::codec::{enc_msg, serialize_tor_message};
use crate::error::TorError;
use crate::length_prefixed_io::{enc_frame, encode_frame};
use crate::tor_message::TorMessage;

verus! {

/// A transport that carries framed wire messages.
pub struct NodeIO<T> {
    inner: T,
}

impl<T> NodeIO<T> {
    /// Wraps a transport.
    pub fn new(inner: T) -> (r: NodeIO<T>) {
        NodeIO { inner }
    }

    /// The wrapped transport.
    pub fn get_ref(&self) -> &T {
        &self.inner
    }

    /// Gives the transport back.
    pub fn into_inner(self) -> T {
        self.inner
    }
}

/// The exact bytes that writing `m` to a link produces: one frame holding
/// the serialized message. A message whose serialized form does not fit the
/// length field is refused.
pub fn node_write_bytes(m: &TorMessage) -> (r: Result<Vec<u8>, TorError>)
    ensures
        match r {
            Ok(f) => enc_msg(m@).len() <= u32::MAX && f@ == enc_frame(enc_msg(m@)),
            Err(e) => enc_msg(m@).len() > u32::MAX && e == TorError::DecodeError,
        },
{
    let ser = serialize_tor_message(m);
    encode_frame(ser.as_slice())
}

} // verus!
