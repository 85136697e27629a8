use rustor::encryption::KeyPair;
use rustor::error::TorError;

#[test]
fn end_to_end() {
    let alice = KeyPair::default();
    let bob = KeyPair::default();
    let alice_pub = alice.initial_public_message();
    let bob_pub = bob.initial_public_message();

    let alice = alice.handshake(bob_pub);
    let bob = bob.handshake(alice_pub);

    let message = "Hello world!";

    let encrypted = alice.encrypt(message.as_bytes());

    let decrypted = bob.decrypt(encrypted.as_slice()).unwrap();

    assert_eq!(decrypted.as_slice(), message.as_bytes());
}

#[test]
fn encrypt_changes_and_lengthens_the_payload() {
    let alice = KeyPair::default();
    let bob = KeyPair::default();
    let bob_pub = bob.initial_public_message();
    let alice = alice.handshake(bob_pub);

    let plain = b"payload".to_vec();
    let cipher = alice.encrypt(&plain);
    assert_eq!(cipher.len(), plain.len() + 28);
    assert_ne!(&cipher[12..], &plain[..]);
}

#[test]
fn decrypt_rejects_short_input() {
    let alice = KeyPair::default();
    let bob = KeyPair::default();
    let alice = alice.handshake(bob.initial_public_message());

    assert_eq!(alice.decrypt(&[1, 2, 3]), Err(TorError::CryptoError));
    assert_eq!(alice.decrypt(&[]), Err(TorError::CryptoError));
}

#[test]
fn decrypt_rejects_tampered_ciphertext() {
    let alice = KeyPair::default();
    let bob = KeyPair::default();
    let alice_pub = alice.initial_public_message();
    let bob_pub = bob.initial_public_message();
    let alice = alice.handshake(bob_pub);
    let bob = bob.handshake(alice_pub);

    let cipher = alice.encrypt(b"authenticated");
    for i in 0..cipher.len() {
        let mut bad = cipher.clone();
        bad[i] ^= 0x01;
        assert_eq!(bob.decrypt(&bad), Err(TorError::CryptoError));
    }
}

#[test]
fn decrypt_with_unrelated_key_fails() {
    let alice = KeyPair::default();
    let bob = KeyPair::default();
    let eve = KeyPair::default();
    let mallory = KeyPair::default();
    let alice = alice.handshake(bob.initial_public_message());
    let eve = eve.handshake(mallory.initial_public_message());

    let cipher = alice.encrypt(b"secret");
    assert_eq!(eve.decrypt(&cipher), Err(TorError::CryptoError));
}
