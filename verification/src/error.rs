use vstd::prelude::*;

verus! {

/// Every failure that can abort a circuit. All of them are fatal to the
/// affected connection; none is recoverable at the protocol level.
#[derive(Clone, Copy, Debug, PartialEq, Eq, Structural)]
pub enum TorError {
    /// Socket read or write failed, or the stream ended mid-frame.
    TransportError,
    /// A frame or a serialized message was malformed.
    DecodeError,
    /// An AEAD authentication check failed or a ciphertext was too short.
    CryptoError,
    /// A message arrived that the state machine does not allow in its
    /// current state.
    ProtocolError,
    /// The client was asked to build a circuit over an empty node path.
    ConfigError,
}

} // verus!
