use vstd::prelude::*;

verus! {

/// A socket address as the wire format carries it: the raw address bytes and
/// the port. Four address bytes for the older internet protocol, sixteen for
/// the newer one.
#[derive(Clone, Copy, Debug, PartialEq, Eq)]
#[allow(inconsistent_fields)]
pub enum Addr {
    V4 { ip: [u8; 4], port: u16 },
    V6 { ip: [u8; 16], port: u16 },
}

/// The mathematical shape of an [`Addr`]: address bytes as a sequence.
pub enum AddrSpec {
    V4 { ip: Seq<u8>, port: u16 },
    V6 { ip: Seq<u8>, port: u16 },
}

impl View for Addr {
    type V = AddrSpec;

    open spec fn view(&self) -> AddrSpec {
        match *self {
            Addr::V4 { ip, port } => AddrSpec::V4 { ip: ip@, port },
            Addr::V6 { ip, port } => AddrSpec::V6 { ip: ip@, port },
        }
    }
}

/// The successor of a hop: either another relay node, or the destination
/// server that speaks raw bytes. Only the terminal hop's successor is
/// `Server`.
#[derive(Clone, Copy, Debug, PartialEq, Eq)]
pub enum Next {
    Node(Addr),
    Server(Addr),
}

/// The mathematical shape of a [`Next`].
pub enum NextSpec {
    Node(AddrSpec),
    Server(AddrSpec),
}

impl View for Next {
    type V = NextSpec;

    open spec fn view(&self) -> NextSpec {
        match *self {
            Next::Node(a) => NextSpec::Node(a@),
            Next::Server(a) => NextSpec::Server(a@),
        }
    }
}

impl Next {
    /// Whether this successor is the destination server rather than a relay.
    pub fn is_server(&self) -> (r: bool)
        ensures
            r == (self@ matches NextSpec::Server(_)),
    {
        match self {
            Next::Node(_) => false,
            Next::Server(_) => true,
        }
    }
}

/// The wire message sent over a single hop link.
#[derive(Debug, PartialEq, Eq)]
pub enum TorMessage {
    /// An opaque payload: this hop must peel one layer off it (forward
    /// direction) or has wrapped one layer onto it (backward direction).
    NotForYou { data: Vec<u8> },
    /// The successor address, encrypted under the receiving hop's key.
    NextNode { next_encrypted: Vec<u8> },
    /// The circuit-extension key exchange: a 32-byte public key.
    HandShake([u8; 32]),
}

/// The mathematical shape of a [`TorMessage`].
pub enum TorMsgSpec {
    NotForYou { data: Seq<u8> },
    NextNode { next_encrypted: Seq<u8> },
    HandShake(Seq<u8>),
}

impl View for TorMessage {
    type V = TorMsgSpec;

    open spec fn view(&self) -> TorMsgSpec {
        match self {
            TorMessage::NotForYou { data } => TorMsgSpec::NotForYou { data: data@ },
            TorMessage::NextNode { next_encrypted } => TorMsgSpec::NextNode {
                next_encrypted: next_encrypted@,
            },
            TorMessage::HandShake(pk) => TorMsgSpec::HandShake(pk@),
        }
    }
}

/// What a node's dispatch loop is asked to do with the result of peeling one
/// layer off a forward-travelling message.
#[derive(Debug, PartialEq, Eq)]
pub enum NetworkMessage<T> {
    /// Forward this message over the forward link, to another relay.
    TorMessage(T),
    /// Write these raw bytes to the forward socket: the successor is the
    /// destination server, which does not speak the protocol.
    ServerMessage(Vec<u8>),
    /// Open the forward socket to the named successor.
    ConnectTo(Next),
}

/// The mathematical shape of a `NetworkMessage<TorMessage>`.
pub enum NetworkMsgSpec {
    TorMessage(TorMsgSpec),
    ServerMessage(Seq<u8>),
    ConnectTo(NextSpec),
}

impl View for NetworkMessage<TorMessage> {
    type V = NetworkMsgSpec;

    open spec fn view(&self) -> NetworkMsgSpec {
        match self {
            NetworkMessage::TorMessage(m) => NetworkMsgSpec::TorMessage(m@),
            NetworkMessage::ServerMessage(data) => NetworkMsgSpec::ServerMessage(data@),
            NetworkMessage::ConnectTo(n) => NetworkMsgSpec::ConnectTo(n@),
        }
    }
}

} // verus!
