use rustor::circuit_manager::{CircuitManager, Directional};
use rustor::codec::{deserialize_tor_message, serialize_next, serialize_tor_message};
use rustor::encryption::KeyPair;
use rustor::error::TorError;
use rustor::tor_message::{Addr, NetworkMessage, Next, TorMessage};

fn next_node() -> Next {
    Next::Node(Addr::V4 { ip: [1, 1, 1, 1], port: 1 })
}

fn next_server() -> Next {
    Next::Server(Addr::V4 { ip: [1, 1, 1, 1], port: 1 })
}

#[test]
fn node_forward_message() {
    let move_along = TorMessage::NotForYou { data: vec![1] };

    let bob = KeyPair::default();

    let (mut circuit_manager, alice_pub) = CircuitManager::handshook(bob.initial_public_message());

    let bob = bob.handshake(alice_pub);

    let next_bytes = serialize_next(&next_node());
    let next_encrypted = bob.encrypt(&next_bytes);

    let next_node_reponse = circuit_manager
        .message(Directional::Forward(TorMessage::NextNode { next_encrypted }))
        .unwrap();

    assert!(matches!(
        next_node_reponse,
        Directional::Forward(NetworkMessage::ConnectTo(n)) if n == next_node()
    ));

    let message = TorMessage::NotForYou {
        data: bob.encrypt(&serialize_tor_message(&move_along)[..]),
    };

    let Directional::Forward(NetworkMessage::TorMessage(result)) =
        circuit_manager.message(Directional::Forward(message)).unwrap()
    else {
        panic!("Unexpected message received")
    };

    assert_eq!(result, move_along);
}

#[test]
fn server_forward_message() {
    let data = vec![1];
    let bob = KeyPair::default();

    let (mut circuit_manager, alice_pub) = CircuitManager::handshook(bob.initial_public_message());

    let bob = bob.handshake(alice_pub);

    let next_bytes = serialize_next(&next_server());
    let next_encrypted = bob.encrypt(&next_bytes);

    let next_node_reponse = circuit_manager
        .message(Directional::Forward(TorMessage::NextNode { next_encrypted }))
        .unwrap();

    assert!(matches!(
        next_node_reponse,
        Directional::Forward(NetworkMessage::ConnectTo(n)) if n == next_server()
    ));

    let message = TorMessage::NotForYou { data: bob.encrypt(&data[..]) };

    let Directional::Forward(NetworkMessage::ServerMessage(result)) =
        circuit_manager.message(Directional::Forward(message)).unwrap()
    else {
        panic!("Unexpected message received")
    };

    assert_eq!(result, data);
}

#[test]
fn handshake() {
    let mut circuit_manager = CircuitManager::default();

    let bob = KeyPair::default();
    let handshake = TorMessage::HandShake(bob.initial_public_message());

    let Directional::Back(TorMessage::HandShake(pubkey)) =
        circuit_manager.message(Directional::Forward(handshake)).unwrap()
    else {
        panic!("Handshake response wasn't sent back")
    };

    assert!(circuit_manager.encryptor.is_some());

    let bob = bob.handshake(pubkey);

    let message = "Hello".as_bytes().to_vec();
    let node_encrypted = circuit_manager.encryptor.unwrap().encrypt(&message[..]);

    let bob_decrypted = bob.decrypt(&node_encrypted[..]).unwrap();

    assert_eq!(message, bob_decrypted);
}

#[test]
fn backward() {
    let bob = KeyPair::default();

    let (mut circuit_manager, alice_pub) = CircuitManager::handshook(bob.initial_public_message());

    let bob = bob.handshake(alice_pub);

    let data = vec![1, 2, 3];
    let Directional::Back(TorMessage::NotForYou { data: encrypted_data }) = circuit_manager
        .message(Directional::Back(TorMessage::NotForYou { data: data.clone() }))
        .unwrap()
    else {
        panic!("Unexpected behavior")
    };

    let result = bob.decrypt(&encrypted_data[..]).unwrap();
    let TorMessage::NotForYou { data: result } = deserialize_tor_message(&result[..]).unwrap()
    else {
        panic!("Invalid tor message")
    };

    assert_eq!(data, result);
}

#[test]
fn duplicate_handshake_is_rejected_and_state_kept() {
    let bob = KeyPair::default();
    let (mut circuit_manager, alice_pub) = CircuitManager::handshook(bob.initial_public_message());
    let bob = bob.handshake(alice_pub);

    let second = KeyPair::default();
    let result = circuit_manager
        .message(Directional::Forward(TorMessage::HandShake(second.initial_public_message())));
    assert_eq!(result, Err(TorError::ProtocolError));

    // The encryptor is unchanged: the key agreed first still decrypts.
    let encrypted = circuit_manager.encryptor.unwrap().encrypt(b"still the same key");
    assert_eq!(bob.decrypt(&encrypted).unwrap(), b"still the same key".to_vec());
}

#[test]
fn message_before_handshake_is_protocol_error() {
    let mut fresh = CircuitManager::default();
    let result = fresh.message(Directional::Forward(TorMessage::NotForYou { data: vec![1] }));
    assert_eq!(result, Err(TorError::ProtocolError));

    let mut fresh = CircuitManager::default();
    let result = fresh.message(Directional::Back(TorMessage::NotForYou { data: vec![1] }));
    assert_eq!(result, Err(TorError::ProtocolError));

    let mut fresh = CircuitManager::default();
    let result =
        fresh.message(Directional::Forward(TorMessage::NextNode { next_encrypted: vec![1] }));
    assert_eq!(result, Err(TorError::ProtocolError));
}

#[test]
fn not_for_you_before_connect_is_protocol_error() {
    let bob = KeyPair::default();
    let (mut circuit_manager, alice_pub) = CircuitManager::handshook(bob.initial_public_message());
    let bob = bob.handshake(alice_pub);

    let message = TorMessage::NotForYou { data: bob.encrypt(b"too early") };
    let result = circuit_manager.message(Directional::Forward(message));
    assert_eq!(result, Err(TorError::ProtocolError));
}

#[test]
fn tampered_forward_message_is_crypto_error() {
    let bob = KeyPair::default();
    let (mut circuit_manager, alice_pub) = CircuitManager::handshook(bob.initial_public_message());
    let bob = bob.handshake(alice_pub);

    let next_encrypted = bob.encrypt(&serialize_next(&next_server()));
    circuit_manager
        .message(Directional::Forward(TorMessage::NextNode { next_encrypted }))
        .unwrap();

    let mut data = bob.encrypt(b"payload");
    data[20] ^= 0xff;
    let result = circuit_manager.message(Directional::Forward(TorMessage::NotForYou { data }));
    assert_eq!(result, Err(TorError::CryptoError));
}

#[test]
fn garbled_next_node_is_decode_error() {
    let bob = KeyPair::default();
    let (mut circuit_manager, alice_pub) = CircuitManager::handshook(bob.initial_public_message());
    let bob = bob.handshake(alice_pub);

    // Authentic ciphertext, but the plaintext is no serialized successor.
    let next_encrypted = bob.encrypt(b"not an address");
    let result =
        circuit_manager.message(Directional::Forward(TorMessage::NextNode { next_encrypted }));
    assert_eq!(result, Err(TorError::DecodeError));
}
