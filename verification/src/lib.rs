//! A minimal onion-routing overlay: layered authenticated encryption over a
//! chain of relay nodes, the per-node circuit state machine that peels or adds
//! one layer per message, and the client-side circuit builder.
//!
//! The modules hold the protocol logic itself; socket handling and task
//! plumbing live outside the library and hand it plain values.

pub mod circuit_manager;
pub mod client;
pub mod codec;
pub mod encryption;
pub mod error;
pub mod length_prefixed_io;
pub mod node;
pub mod node_io;
pub mod onion;
pub mod tor_message;
