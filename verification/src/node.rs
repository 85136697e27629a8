//! The decisions of a relay node's connection pipeline.
//!
//! Around each inbound connection the node runs reader tasks, a dispatch
//! loop and writer halves; the loop's decisions live here. A session holds
//! the circuit manager and whether the forward connection is open; one
//! event in, one action out: write a message back, open the forward
//! connection once, or write forward — to the next relay framed, to the
//! destination server raw.

use vstd::prelude::*;

use crate::circuit_manager::{
    CircuitManager, Directional, IncomingMessage, OutgoingMessage,
};
use crate::codec::enc_msg;
use crate::error::TorError;
use crate::tor_message::{NetworkMessage, Next, TorMessage, TorMsgSpec};

verus! {

/// What the pipeline must do with the circuit manager's answer.
#[derive(Debug, PartialEq, Eq)]
pub enum NodeAction {
    /// Write this message, framed, to the back link.
    WriteBack(TorMessage),
    /// Open the forward connection to this successor.
    OpenForward(Next),
    /// Write this message, framed, to the forward link.
    WriteForward(TorMessage),
    /// Write these raw bytes to the destination server.
    WriteServer(Vec<u8>),
}

/// One inbound connection's state: the circuit manager and whether the
/// forward connection has been opened.
pub struct NodeSession {
    pub manager: CircuitManager,
    pub forward_open: bool,
}

/// The circuit manager's transition relation, one case per input shape.
pub open spec fn manager_step(
    post: CircuitManager,
    pre: CircuitManager,
    event: IncomingMessage,
    step: Result<OutgoingMessage, TorError>,
) -> bool {
    match event {
        Directional::Forward(fm) => match fm {
            TorMessage::HandShake(pk) => post.ens_handshake(pre, pk@, step),
            TorMessage::NextNode { next_encrypted } => post.ens_connect(pre, next_encrypted@, step),
            TorMessage::NotForYou { data } => post.ens_push_onward(pre, data@, step),
        },
        Directional::Back(bm) => post.ens_push_back(pre, bm@, step),
    }
}

/// How the pipeline dispatches one manager answer: backward messages go to
/// the back writer; a first `ConnectTo` opens the forward side, a second is
/// a protocol error; forward messages need the forward side open.
pub open spec fn dispatches(
    pre_open: bool,
    post_open: bool,
    om: OutgoingMessage,
    r: Result<NodeAction, TorError>,
) -> bool {
    match om {
        Directional::Back(m) => r == Ok::<NodeAction, TorError>(NodeAction::WriteBack(m))
            && post_open == pre_open,
        Directional::Forward(nm) => match nm {
            NetworkMessage::ConnectTo(n) => if pre_open {
                r == Err::<NodeAction, TorError>(TorError::ProtocolError) && post_open == pre_open
            } else {
                r == Ok::<NodeAction, TorError>(NodeAction::OpenForward(n)) && post_open
            },
            NetworkMessage::TorMessage(m) => post_open == pre_open && if pre_open {
                r == Ok::<NodeAction, TorError>(NodeAction::WriteForward(m))
            } else {
                r == Err::<NodeAction, TorError>(TorError::ProtocolError)
            },
            NetworkMessage::ServerMessage(d) => post_open == pre_open && if pre_open {
                r == Ok::<NodeAction, TorError>(NodeAction::WriteServer(d))
            } else {
                r == Err::<NodeAction, TorError>(TorError::ProtocolError)
            },
        },
    }
}

impl NodeSession {
    /// A session for a fresh inbound connection: no key, no successor, no
    /// forward link.
    pub fn new() -> (r: NodeSession)
        ensures
            r.manager.encryptor is None,
            r.manager.next is None,
            !r.forward_open,
    {
        NodeSession { manager: CircuitManager::default(), forward_open: false }
    }

    /// Feeds one event through the circuit manager and dispatches its
    /// answer: the manager makes exactly one step, and the step's output is
    /// dispatched by the forward-link rules.
    pub fn handle_event(&mut self, event: IncomingMessage) -> (r: Result<NodeAction, TorError>)
        requires
            event matches Directional::Back(m) ==> enc_msg(m@).len() + 28 <= 0x1000000000,
        ensures
            exists|step: Result<OutgoingMessage, TorError>|
                {
                    &&& #[trigger] manager_step(
                        final(self).manager,
                        old(self).manager,
                        event,
                        step,
                    )
                    &&& match step {
                        Ok(om) => dispatches(
                            old(self).forward_open,
                            final(self).forward_open,
                            om,
                            r,
                        ),
                        Err(e) => r == Err::<NodeAction, TorError>(e) && final(self).forward_open
                            == old(self).forward_open,
                    }
                },
    {
        let ghost pre_manager = self.manager;
        let step = self.manager.message(event);
        let ghost step_view = step;
        match step {
            Ok(om) => {
                let out = match om {
                    Directional::Back(m) => Ok(NodeAction::WriteBack(m)),
                    Directional::Forward(NetworkMessage::ConnectTo(n)) => {
                        if self.forward_open {
                            Err(TorError::ProtocolError)
                        } else {
                            self.forward_open = true;
                            Ok(NodeAction::OpenForward(n))
                        }
                    }
                    Directional::Forward(NetworkMessage::TorMessage(m)) => {
                        if self.forward_open {
                            Ok(NodeAction::WriteForward(m))
                        } else {
                            Err(TorError::ProtocolError)
                        }
                    }
                    Directional::Forward(NetworkMessage::ServerMessage(d)) => {
                        if self.forward_open {
                            Ok(NodeAction::WriteServer(d))
                        } else {
                            Err(TorError::ProtocolError)
                        }
                    }
                };
                proof {
                    assert(manager_step(self.manager, pre_manager, event, step_view));
                }
                out
            }
            Err(e) => {
                proof {
                    assert(manager_step(self.manager, pre_manager, event, step_view));
                }
                Err(e)
            }
        }
    }
}

/// Re-frames one chunk of raw server bytes as the wire message the
/// terminal hop sends backward: the chunk itself, untouched, as the payload
/// of a `NotForYou`.
pub fn server_chunk_message(chunk: &[u8]) -> (r: TorMessage)
    ensures
        r@ == (TorMsgSpec::NotForYou { data: chunk@ }),
{
    TorMessage::NotForYou { data: vstd::slice::slice_to_vec(chunk) }
}

} // verus!
