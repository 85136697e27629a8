//! The per-connection state machine a relay node runs.
//!
//! A manager starts with neither key nor successor. One handshake gives it
//! the hop key; one `NextNode` names its successor; from then on it peels a
//! layer off every forward message and wraps a layer onto every backward
//! message. Every contract below pins the reply, the error and the state
//! change for each input in each state.

use vstd::prelude::*;

use crate::codec::{dec_msg, dec_next, enc_msg};
use crate::codec::{deserialize_next, deserialize_tor_message, serialize_tor_message};
use crate::encryption::{aead_plain, shared_key, Encryptor};
use crate::error::TorError;
use crate::tor_message::{NetworkMessage, Next, NextSpec, TorMessage, TorMsgSpec};

verus! {

/// A message together with the direction it travels in: `Forward` toward
/// the destination server, `Back` toward the client.
#[derive(Debug, PartialEq, Eq)]
pub enum Directional<F, B> {
    Back(B),
    Forward(F),
}

/// What a node receives: a wire message from either side of the circuit.
pub type IncomingMessage = Directional<TorMessage, TorMessage>;

/// What a node must do next: dispatch a network action forward, or send a
/// wire message back.
pub type OutgoingMessage = Directional<NetworkMessage<TorMessage>, TorMessage>;

/// One hop's circuit state: the key shared with the client, once the
/// handshake happened, and the successor, once a `NextNode` named it.
pub struct CircuitManager {
    pub encryptor: Option<Encryptor>,
    pub next: Option<Next>,
}

impl Default for CircuitManager {
    /// A manager that has seen no message yet.
    fn default() -> (r: Self)
        ensures
            r.encryptor is None,
            r.next is None,
    {
        CircuitManager { encryptor: None, next: None }
    }
}

impl CircuitManager {
    /// A manager that has already completed its handshake, together with
    /// the public key it would have sent back.
    pub fn handshook(other_publickey: [u8; 32]) -> (r: (CircuitManager, [u8; 32]))
        ensures
            r.0.encryptor matches Some(e) && e@ == shared_key(r.1@, other_publickey@),
            r.0.next is None,
    {
        let (encryptor, my_public) = Encryptor::from_public(other_publickey);
        (CircuitManager { encryptor: Some(encryptor), next: None }, my_public)
    }

    /// Answers one incoming message according to the state table: a first
    /// handshake is answered backward and installs the hop key, a repeated
    /// handshake is a protocol error; a `NextNode` decrypts the successor
    /// and asks for the forward connection; a forward `NotForYou` peels one
    /// layer and forwards it; any backward message is wrapped in one layer
    /// and sent back; everything else is rejected in place, with the state
    /// kept.
    pub fn message(&mut self, message: IncomingMessage) -> (r: Result<OutgoingMessage, TorError>)
        requires
            message matches Directional::Back(m) ==> enc_msg(m@).len() + 28 <= 0x1000000000,
        ensures
            match message {
                Directional::Forward(fm) => match fm {
                    TorMessage::HandShake(pk) => final(self).ens_handshake(*old(self), pk@, r),
                    TorMessage::NextNode { next_encrypted } => final(self).ens_connect(
                        *old(self),
                        next_encrypted@,
                        r,
                    ),
                    TorMessage::NotForYou { data } => final(self).ens_push_onward(*old(self), data@, r),
                },
                Directional::Back(bm) => final(self).ens_push_back(*old(self), bm@, r),
            },
    {
        match message {
            Directional::Forward(TorMessage::HandShake(public_key)) => self.handshake(public_key),
            Directional::Forward(TorMessage::NotForYou { data }) => self.push_onward(data),
            Directional::Forward(TorMessage::NextNode { next_encrypted }) => {
                self.connect(next_encrypted.as_slice())
            }
            Directional::Back(message) => self.push_response_back(message),
        }
    }

    /// What answering a handshake with public key `pk` means, relating the
    /// state before (`pre`) and after (`self`).
    pub open spec fn ens_handshake(
        self,
        pre: CircuitManager,
        pk: Seq<u8>,
        r: Result<OutgoingMessage, TorError>,
    ) -> bool {
        &&& pre.encryptor is Some ==> r == Err::<OutgoingMessage, TorError>(
            TorError::ProtocolError,
        ) && self == pre
        &&& pre.encryptor is None ==> {
            &&& r matches Ok(Directional::Back(TorMessage::HandShake(my_pub)))
                && self.encryptor matches Some(e) && e@ == shared_key(my_pub@, pk)
            &&& self.next == pre.next
        }
    }

    /// What answering a `NextNode` whose encrypted field is `c` means.
    pub open spec fn ens_connect(
        self,
        pre: CircuitManager,
        c: Seq<u8>,
        r: Result<OutgoingMessage, TorError>,
    ) -> bool {
        match pre.encryptor {
            None => r == Err::<OutgoingMessage, TorError>(TorError::ProtocolError) && self == pre,
            Some(e) => match aead_plain(e@, c) {
                None => r == Err::<OutgoingMessage, TorError>(TorError::CryptoError) && self
                    == pre,
                Some(p) => match dec_next(p) {
                    None => r == Err::<OutgoingMessage, TorError>(TorError::DecodeError) && self
                        == pre,
                    Some(nx) => {
                        &&& r matches Ok(Directional::Forward(NetworkMessage::ConnectTo(n)))
                            && n@ == nx
                        &&& self.encryptor == pre.encryptor
                        &&& self.next matches Some(n2) && n2@ == nx
                    }
                },
            },
        }
    }

    /// What answering a forward `NotForYou` with ciphertext `data` means.
    pub open spec fn ens_push_onward(
        self,
        pre: CircuitManager,
        data: Seq<u8>,
        r: Result<OutgoingMessage, TorError>,
    ) -> bool {
        &&& self == pre
        &&& match pre.encryptor {
            None => r == Err::<OutgoingMessage, TorError>(TorError::ProtocolError),
            Some(e) => match pre.next {
                None => r == Err::<OutgoingMessage, TorError>(TorError::ProtocolError),
                Some(nx) => match aead_plain(e@, data) {
                    None => r == Err::<OutgoingMessage, TorError>(TorError::CryptoError),
                    Some(p) => if nx@ matches NextSpec::Server(_) {
                        r matches Ok(Directional::Forward(NetworkMessage::ServerMessage(d)))
                            && d@ == p
                    } else {
                        match dec_msg(p) {
                            None => r == Err::<OutgoingMessage, TorError>(TorError::DecodeError),
                            Some(im) => r matches Ok(
                                Directional::Forward(NetworkMessage::TorMessage(m2)),
                            ) && m2@ == im,
                        }
                    },
                },
            },
        }
    }

    /// What answering a backward message `bm` means: one fresh layer whose
    /// ciphertext opens to the serialized message.
    pub open spec fn ens_push_back(
        self,
        pre: CircuitManager,
        bm: TorMsgSpec,
        r: Result<OutgoingMessage, TorError>,
    ) -> bool {
        &&& self == pre
        &&& match pre.encryptor {
            None => r == Err::<OutgoingMessage, TorError>(TorError::ProtocolError),
            Some(e) => r matches Ok(Directional::Back(TorMessage::NotForYou { data }))
                && aead_plain(e@, data@) == Some(enc_msg(bm)),
        }
    }

    /// Installs the hop key from a first handshake; rejects a second one.
    fn handshake(&mut self, other_public_key: [u8; 32]) -> (r: Result<OutgoingMessage, TorError>)
        ensures
            final(self).ens_handshake(*old(self), other_public_key@, r),
    {
        if self.encryptor.is_some() {
            return Err(TorError::ProtocolError);
        }
        let (encryptor, my_public) = Encryptor::from_public(other_public_key);
        self.encryptor = Some(encryptor);
        Ok(Directional::Back(TorMessage::HandShake(my_public)))
    }

    /// Decrypts the successor address under the hop key and asks the
    /// pipeline to open the forward connection to it.
    pub fn connect(&mut self, encrypted_addr: &[u8]) -> (r: Result<OutgoingMessage, TorError>)
        ensures
            final(self).ens_connect(*old(self), encrypted_addr@, r),
    {
        let encryptor = match self.encryptor {
            Some(e) => e,
            None => {
                return Err(TorError::ProtocolError);
            }
        };
        let addr = match encryptor.decrypt(encrypted_addr) {
            Ok(p) => p,
            Err(e) => {
                return Err(e);
            }
        };
        let addr = match deserialize_next(addr.as_slice()) {
            Ok(n) => n,
            Err(e) => {
                return Err(e);
            }
        };
        self.next = Some(addr);
        Ok(Directional::Forward(NetworkMessage::ConnectTo(addr)))
    }

    /// Peels one layer off a forward message: raw bytes for the server if
    /// this is the terminal hop, one more wire message otherwise.
    pub fn push_onward(&mut self, onioned_data: Vec<u8>) -> (r: Result<OutgoingMessage, TorError>)
        ensures
            final(self).ens_push_onward(*old(self), onioned_data@, r),
    {
        let encryptor = match self.encryptor {
            Some(e) => e,
            None => {
                return Err(TorError::ProtocolError);
            }
        };
        let next = match self.next {
            Some(n) => n,
            None => {
                return Err(TorError::ProtocolError);
            }
        };
        let deonionized = match encryptor.decrypt(onioned_data.as_slice()) {
            Ok(p) => p,
            Err(e) => {
                return Err(e);
            }
        };
        if next.is_server() {
            Ok(Directional::Forward(NetworkMessage::ServerMessage(deonionized)))
        } else {
            match deserialize_tor_message(deonionized.as_slice()) {
                Ok(m) => Ok(Directional::Forward(NetworkMessage::TorMessage(m))),
                Err(e) => Err(e),
            }
        }
    }

    /// Wraps one layer onto a backward message and sends it toward the
    /// client.
    fn push_response_back(&mut self, message: TorMessage) -> (r: Result<OutgoingMessage, TorError>)
        requires
            enc_msg(message@).len() + 28 <= 0x1000000000,
        ensures
            final(self).ens_push_back(*old(self), message@, r),
    {
        let encryptor = match self.encryptor {
            Some(e) => e,
            None => {
                return Err(TorError::ProtocolError);
            }
        };
        let data = serialize_tor_message(&message);
        let encrypted_back = encryptor.encrypt(data.as_slice());
        Ok(Directional::Back(TorMessage::NotForYou { data: encrypted_back }))
    }
}

} // verus!
