use rustor::codec::deserialize_tor_message;
use rustor::encryption::{Encryptor, KeyPair};
use rustor::error::TorError;
use rustor::onion::{decrypt_onion_layers, onion_wrap_handshake, onion_wrap_packet};
use rustor::tor_message::{Addr, Next, TorMessage};

fn bob_node() -> Next {
    Next::Node(Addr::V4 { ip: [1, 1, 1, 1], port: 1 })
}

fn server() -> Next {
    Next::Server(Addr::V4 { ip: [1, 1, 1, 1], port: 2 })
}

#[test]
fn test_build_packet() {
    // Setup Alice and Bob as the two nodes
    let client_alice = KeyPair::default();
    let alice = KeyPair::default();

    let client_bob = KeyPair::default();
    let bob = KeyPair::default();

    // Alice and Bob perform handshake
    let bob_encryptor = client_bob.handshake(bob.initial_public_message());
    let alice_encryptor = client_alice.handshake(alice.initial_public_message());

    // Nodes and data for packet construction
    let nodes = [(alice_encryptor, bob_node()), (bob_encryptor, server())];
    let data = b"test data".to_vec();

    let result = onion_wrap_packet(&nodes, &data[..]);
    assert!(result.is_some());

    let message: TorMessage = result.unwrap();
    let TorMessage::NotForYou { data: encrypted } = message else {
        panic!("Message should be Not for you");
    };

    let message: TorMessage =
        deserialize_tor_message(&alice_encryptor.decrypt(&encrypted).unwrap()[..]).unwrap();
    let TorMessage::NotForYou { data: encrypted } = message else {
        panic!("Handshake?");
    };

    let final_result = bob_encryptor.decrypt(&encrypted).unwrap();
    assert_eq!(final_result, data);
}

#[test]
fn test_build_handshake() {
    // Setup Alice and Bob as the two nodes
    let alice = KeyPair::default();
    let client_alice = KeyPair::default();
    let alice_encryptor = client_alice.handshake(alice.initial_public_message());

    // Nodes for handshake construction
    let nodes = [(Some(alice_encryptor), bob_node()), (None, server())];

    let bob = KeyPair::default();

    let result = onion_wrap_handshake(&nodes, bob.initial_public_message());

    let message: TorMessage = result.unwrap();
    let TorMessage::NotForYou { data: encrypted } = message else {
        panic!("Message should be Not for you");
    };

    let message: TorMessage =
        deserialize_tor_message(&alice_encryptor.decrypt(&encrypted).unwrap()[..]).unwrap();

    let TorMessage::HandShake(pubkey) = message else {
        panic!("Handshake?");
    };

    assert_eq!(pubkey, bob.initial_public_message());
}

#[test]
fn test_build_handshake_one_layer() {
    let nodes: [(Option<Encryptor>, Next); 2] = [(None, bob_node()), (None, server())];
    let bob = KeyPair::default();

    let message = onion_wrap_handshake(&nodes, bob.initial_public_message()).unwrap();

    let TorMessage::HandShake(pubkey) = message else {
        panic!("Handshake?");
    };
    assert_eq!(pubkey, bob.initial_public_message());
}

fn three_hop_chain() -> Vec<(Encryptor, Next)> {
    let mut chain = Vec::new();
    for i in 0..3u8 {
        let client_side = KeyPair::default();
        let node_side = KeyPair::default();
        let enc = client_side.handshake(node_side.initial_public_message());
        let next = if i == 2 {
            server()
        } else {
            bob_node()
        };
        chain.push((enc, next));
    }
    chain
}

#[test]
fn wrap_then_unwrap_all_layers() {
    let chain = three_hop_chain();
    let payload = b"onion round trip".to_vec();

    let wrapped = onion_wrap_packet(&chain, &payload).unwrap();

    // The client-side unwrap of the first two layers leaves the terminal
    // hop's ciphertext, which its own key opens to the payload.
    let firsts: Vec<Encryptor> = vec![chain[0].0, chain[1].0];
    let inner = decrypt_onion_layers(&firsts, wrapped).unwrap();
    let TorMessage::NotForYou { data } = inner else {
        panic!("expected a payload layer");
    };
    assert_eq!(chain[2].0.decrypt(&data).unwrap(), payload);
}

#[test]
fn wrap_packet_refuses_empty_chain() {
    let nodes: [(Encryptor, Next); 0] = [];
    assert!(onion_wrap_packet(&nodes, b"data").is_none());
}

#[test]
fn tampered_packet_fails_at_the_altered_layer() {
    let chain = three_hop_chain();
    let payload = b"authenticated onion".to_vec();

    let wrapped = onion_wrap_packet(&chain, &payload).unwrap();
    let TorMessage::NotForYou { data } = wrapped else {
        panic!("expected a wrapped layer");
    };

    // Flip one byte anywhere in the outer ciphertext: the first hop's
    // decryption must fail with a crypto error.
    let firsts: Vec<Encryptor> = vec![chain[0].0, chain[1].0];
    for i in [0, 5, 12, data.len() / 2, data.len() - 1] {
        let mut bad = data.clone();
        bad[i] ^= 0x20;
        let result =
            decrypt_onion_layers(&firsts, TorMessage::NotForYou { data: bad });
        assert_eq!(result, Err(TorError::CryptoError));
    }
}

#[test]
fn unwrap_expects_not_for_you_layers() {
    let chain = three_hop_chain();
    let firsts: Vec<Encryptor> = vec![chain[0].0];
    let stray = TorMessage::HandShake([7u8; 32]);
    assert_eq!(decrypt_onion_layers(&firsts, stray), Err(TorError::ProtocolError));
}
