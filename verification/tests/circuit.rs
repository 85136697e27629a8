//! End-to-end scenarios over an in-memory chain: real keys, real layers,
//! real state machines, with the sockets replaced by direct delivery.

use rustor::circuit_manager::Directional;
use rustor::client::{CircuitBuilder, TorClient};
use rustor::codec::serialize_next;
use rustor::error::TorError;
use rustor::node::{server_chunk_message, NodeAction, NodeSession};
use rustor::tor_message::{Addr, Next, TorMessage};

struct Sim {
    sessions: Vec<NodeSession>,
    server_received: Vec<u8>,
    to_client: Vec<TorMessage>,
}

impl Sim {
    fn new(k: usize) -> Sim {
        Sim {
            sessions: (0..k).map(|_| NodeSession::new()).collect(),
            server_received: Vec::new(),
            to_client: Vec::new(),
        }
    }

    /// Hands a message from the client to the first node and lets it travel
    /// forward; replies travel back through every earlier node.
    fn deliver_forward(&mut self, msg: TorMessage) {
        let mut cur = Some(msg);
        let mut i = 0;
        while let Some(m) = cur.take() {
            match self.sessions[i].handle_event(Directional::Forward(m)).unwrap() {
                NodeAction::WriteBack(reply) => self.backward_from(i, reply),
                NodeAction::OpenForward(_) => {}
                NodeAction::WriteForward(m2) => {
                    cur = Some(m2);
                    i += 1;
                }
                NodeAction::WriteServer(d) => self.server_received.extend(d),
            }
        }
    }

    /// A message leaving node `i` backward: every node before it wraps one
    /// layer; what leaves the first node reaches the client.
    fn backward_from(&mut self, i: usize, reply: TorMessage) {
        let mut m = reply;
        for j in (0..i).rev() {
            let NodeAction::WriteBack(wrapped) =
                self.sessions[j].handle_event(Directional::Back(m)).unwrap()
            else {
                panic!("backward messages are always written back");
            };
            m = wrapped;
        }
        self.to_client.push(m);
    }

    /// The destination server writes one chunk of raw bytes: the terminal
    /// node re-frames it and it travels back to the client.
    fn server_reply(&mut self, chunk: &[u8]) {
        let k = self.sessions.len();
        self.backward_from(k, server_chunk_message(chunk));
    }
}

fn server_addr() -> Addr {
    Addr::V4 { ip: [10, 0, 0, 99], port: 80 }
}

fn build_circuit(k: usize) -> (TorClient, Sim) {
    let addrs: Vec<Addr> = (0..k)
        .map(|i| Addr::V4 { ip: [10, 0, 0, i as u8], port: 9000 + i as u16 })
        .collect();
    let mut builder = CircuitBuilder::new(&addrs, server_addr()).unwrap();
    let mut sim = Sim::new(k);
    while !builder.finished() {
        let req = builder.extend_request();
        sim.deliver_forward(req);
        let resp = sim.to_client.remove(0);
        let connect = builder.extend_response(resp).unwrap();
        sim.deliver_forward(connect);
    }
    (builder.into_client(), sim)
}

#[test]
fn single_hop_end_to_end() {
    let (client, mut sim) = build_circuit(1);

    sim.deliver_forward(client.write(b"Hello"));
    assert_eq!(sim.server_received, b"Hello");

    sim.server_reply(b"Ack");
    let m = sim.to_client.remove(0);
    assert_eq!(client.read(m).unwrap(), b"Ack");
}

#[test]
fn three_hop_end_to_end() {
    let (client, mut sim) = build_circuit(3);
    let writer = client.duplicate();

    sim.deliver_forward(writer.write(b"Ping"));
    assert_eq!(sim.server_received, b"Ping");

    sim.server_reply(b"Pong");
    let m = sim.to_client.remove(0);
    assert_eq!(client.read(m).unwrap(), b"Pong");
}

#[test]
fn chunked_server_stream_reassembles_in_order() {
    let (client, mut sim) = build_circuit(2);

    let chunks: [&[u8]; 4] = [b"alpha", b"beta", b"gamma", b"delta"];
    for c in chunks {
        sim.server_reply(c);
    }

    let mut all: Vec<u8> = Vec::new();
    for m in sim.to_client.drain(..) {
        all.extend(client.read(m).unwrap());
    }
    assert_eq!(all, b"alphabetagammadelta".to_vec());
}

#[test]
fn empty_path_is_config_error() {
    let addrs: Vec<Addr> = Vec::new();
    let r = CircuitBuilder::new(&addrs, server_addr());
    assert!(matches!(r, Err(TorError::ConfigError)));
}

#[test]
fn second_connect_to_is_protocol_error() {
    let (client, mut sim) = build_circuit(1);

    let enc = client.nodes[0].0;
    let next_encrypted = enc.encrypt(&serialize_next(&Next::Server(server_addr())));
    let r = sim.sessions[0]
        .handle_event(Directional::Forward(TorMessage::NextNode { next_encrypted }));
    assert_eq!(r, Err(TorError::ProtocolError));
}

#[test]
fn forward_traffic_before_connect_is_protocol_error() {
    let mut session = NodeSession::new();
    let kp = rustor::encryption::KeyPair::default();
    let Ok(NodeAction::WriteBack(TorMessage::HandShake(node_pub))) = session
        .handle_event(Directional::Forward(TorMessage::HandShake(kp.initial_public_message())))
    else {
        panic!("handshake must be answered backward");
    };
    let enc = kp.handshake(node_pub);

    let r = session.handle_event(Directional::Forward(TorMessage::NotForYou {
        data: enc.encrypt(b"too early"),
    }));
    assert_eq!(r, Err(TorError::ProtocolError));
}
