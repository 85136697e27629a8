//! Key agreement and authenticated symmetric encryption for one hop.
//!
//! An ephemeral Diffie–Hellman exchange produces a 256-bit AEAD key; a
//! ciphertext is a fresh random 12-byte nonce followed by the AEAD output.
//! The outside primitives are named, not restated: `dh_key` stands for the
//! derived key of a pair of public keys, `aead_open` for deterministic AEAD
//! decryption. Everything the library proves about onion layers rests on
//! those names and the contracts below.

use aes_gcm::aead::Aead;
use aes_gcm::{Aes256Gcm, KeyInit, Nonce};
use rand::rngs::OsRng;
use rand::RngCore;
use sha2::{Digest, Sha256};
use vstd::prelude::*;

use crate::error::TorError;

verus! {

/// The number of nonce bytes that lead every ciphertext.
pub const NONCE_LENGTH: usize = 12;

/// The public key that belongs to a 32-byte Diffie–Hellman secret.
pub uninterp spec fn pub_of(secret: Seq<u8>) -> Seq<u8>;

/// The AEAD key two parties derive from their Diffie–Hellman exchange,
/// written with the parties' public keys in one fixed order. Use
/// [`shared_key`], which does not care about the order.
pub uninterp spec fn dh_key(a: Seq<u8>, b: Seq<u8>) -> Seq<u8>;

/// Deterministic AEAD decryption: the plaintext that `key` and `nonce`
/// recover from `body`, or nothing if the authentication tag fails.
pub uninterp spec fn aead_open(key: Seq<u8>, nonce: Seq<u8>, body: Seq<u8>) -> Option<Seq<u8>>;

/// Lexicographic order on byte strings, with a prefix before its extensions.
pub open spec fn lex_le(a: Seq<u8>, b: Seq<u8>) -> bool
    decreases a.len(),
{
    if a.len() == 0 {
        true
    } else if b.len() == 0 {
        false
    } else if a[0] < b[0] {
        true
    } else if a[0] > b[0] {
        false
    } else {
        lex_le(a.skip(1), b.skip(1))
    }
}

/// The AEAD key shared by the holders of public keys `a` and `b`: the same
/// whichever side derives it.
pub open spec fn shared_key(a: Seq<u8>, b: Seq<u8>) -> Seq<u8> {
    if lex_le(a, b) {
        dh_key(a, b)
    } else {
        dh_key(b, a)
    }
}

/// The plaintext hidden in `cipher` under `key`, or nothing: a ciphertext is
/// a 12-byte nonce followed by the AEAD body.
pub open spec fn aead_plain(key: Seq<u8>, cipher: Seq<u8>) -> Option<Seq<u8>> {
    if cipher.len() < 12 {
        None
    } else {
        aead_open(key, cipher.subrange(0, 12), cipher.skip(12))
    }
}

proof fn lemma_lex_le_total(a: Seq<u8>, b: Seq<u8>)
    ensures
        lex_le(a, b) || lex_le(b, a),
    decreases a.len(),
{
    if a.len() != 0 && b.len() != 0 && a[0] == b[0] {
        lemma_lex_le_total(a.skip(1), b.skip(1));
    }
}

proof fn lemma_lex_le_antisymmetric(a: Seq<u8>, b: Seq<u8>)
    requires
        lex_le(a, b),
        lex_le(b, a),
    ensures
        a == b,
    decreases a.len(),
{
    if a.len() == 0 {
        assert(b.len() == 0);
        assert(a =~= b);
    } else {
        assert(b.len() != 0);
        assert(a[0] == b[0]);
        lemma_lex_le_antisymmetric(a.skip(1), b.skip(1));
        assert(a.skip(1) == b.skip(1));
        assert(a.len() == b.len());
        assert forall|i: int| 0 <= i < a.len() implies a[i] == b[i] by {
            if i > 0 {
                assert(a.skip(1)[i - 1] == a[i]);
                assert(b.skip(1)[i - 1] == b[i]);
            }
        }
        assert(a =~= b);
    }
}

/// The derived hop key does not depend on which party derives it: the key
/// pair `(a, b)` and the key pair `(b, a)` agree on their shared AEAD key.
pub proof fn lemma_shared_key_symmetric(a: Seq<u8>, b: Seq<u8>)
    ensures
        shared_key(a, b) == shared_key(b, a),
{
    lemma_lex_le_total(a, b);
    if lex_le(a, b) && lex_le(b, a) {
        lemma_lex_le_antisymmetric(a, b);
    }
}

/// Whatever one side of an exchange encrypts, the other side decrypts back
/// to the same plaintext: a ciphertext that opens to `plain` under the key
/// the pair `(a, b)` derives also opens to `plain` under the key the pair
/// `(b, a)` derives.
pub proof fn lemma_crypto_round_trip(a: Seq<u8>, b: Seq<u8>, cipher: Seq<u8>, plain: Seq<u8>)
    requires
        aead_plain(shared_key(a, b), cipher) == Some(plain),
    ensures
        aead_plain(shared_key(b, a), cipher) == Some(plain),
{
    lemma_shared_key_symmetric(a, b);
}

/// One hop's encryption state: a 256-bit AEAD key derived from a
/// Diffie–Hellman exchange. Immutable after construction; its view is the
/// key bytes.
#[derive(Clone, Copy)]
pub struct Encryptor {
    key: [u8; 32],
}

impl View for Encryptor {
    type V = Seq<u8>;

    closed spec fn view(&self) -> Seq<u8> {
        self.key@
    }
}

/// An ephemeral Diffie–Hellman key pair, used for exactly one handshake.
pub struct KeyPair {
    secret: [u8; 32],
    public: [u8; 32],
}

impl KeyPair {
    /// The public half belongs to the secret half.
    pub closed spec fn wf(self) -> bool {
        self.public@ == pub_of(self.secret@)
    }

    /// The key pair's view is its public key bytes.
    pub closed spec fn view(self) -> Seq<u8> {
        self.public@
    }

    /// The secret half, visible only to specifications.
    pub closed spec fn secret_view(self) -> Seq<u8> {
        self.secret@
    }

    /// A fresh key pair from the system's cryptographically secure random
    /// number generator.
    ///
    /// Relies on `rand::rngs::OsRng` for the secret bytes and on
    /// `x25519_dalek::x25519` with the base point for the matching public
    /// key. Aborts only if the operating system's random source fails.
    #[verifier::external_body]
    pub fn new() -> (r: KeyPair)
        ensures
            r.wf(),
            r@ == pub_of(r.secret_view()),
    {
        let mut secret = [0u8; 32];
        OsRng.fill_bytes(&mut secret);
        let public = x25519_dalek::x25519(secret, x25519_dalek::X25519_BASEPOINT_BYTES);
        KeyPair { secret, public }
    }

    /// The 32 public-key bytes to send to the peer.
    pub fn initial_public_message(&self) -> (r: [u8; 32])
        ensures
            r@ == self@,
    {
        self.public
    }

    /// Consumes the pair and derives the hop key from the peer's public key.
    ///
    /// Relies on `x25519_dalek::x25519` and `sha2::Sha256`: the derived key
    /// is SHA-256 of the X25519 shared point, which for the clamped scalars
    /// this library generates is a function of the two public keys alone and
    /// does not depend on which side computes it.
    #[verifier::external_body]
    pub fn handshake(self, other_publickey: [u8; 32]) -> (r: Encryptor)
        requires
            self.wf(),
        ensures
            r@ == shared_key(self@, other_publickey@),
            lex_le(self@, other_publickey@) ==> r@ == dh_key(self@, other_publickey@),
            !lex_le(self@, other_publickey@) ==> r@ == dh_key(other_publickey@, self@),
    {
        let shared = x25519_dalek::x25519(self.secret, other_publickey);
        let key: [u8; 32] = Sha256::digest(shared).into();
        Encryptor { key }
    }
}

impl Default for KeyPair {
    /// A fresh key pair, as [`KeyPair::new`] makes one.
    fn default() -> (r: Self)
        ensures
            r.wf(),
    {
        KeyPair::new()
    }
}

impl Encryptor {
    /// Generates a key pair, performs the handshake with the peer's public
    /// key, and returns the encryptor together with the local public bytes
    /// that must be sent back to the peer.
    pub fn from_public(other_publickey: [u8; 32]) -> (r: (Encryptor, [u8; 32]))
        ensures
            r.0@ == shared_key(r.1@, other_publickey@),
    {
        let kp = KeyPair::new();
        let my_public = kp.initial_public_message();
        let encryptor = kp.handshake(other_publickey);
        (encryptor, my_public)
    }

    /// Encrypts `bytes` under this hop's key: a fresh random 12-byte nonce,
    /// then the AEAD output, which is 16 bytes longer than the plaintext.
    ///
    /// Relies on `aes_gcm::Aes256Gcm`: decrypting the produced ciphertext
    /// with the same key recovers the plaintext, and the output length is
    /// the plaintext length plus the 16-byte tag. The plaintext bound is the
    /// cipher's own limit, below which it never refuses. Relies on
    /// `rand::rngs::OsRng` for the nonce; aborts only if the operating
    /// system's random source fails.
    #[verifier::external_body]
    pub fn encrypt(&self, bytes: &[u8]) -> (r: Vec<u8>)
        requires
            bytes@.len() <= 0x1000000000,
        ensures
            aead_plain(self@, r@) == Some(bytes@),
            r@.len() == bytes@.len() + 28,
    {
        let cipher = Aes256Gcm::new_from_slice(&self.key).expect("the key is 32 bytes");
        let mut nonce_bytes = [0u8; 12];
        OsRng.fill_bytes(&mut nonce_bytes);
        let nonce = Nonce::from_slice(&nonce_bytes);
        let ciphertext = cipher.encrypt(nonce, bytes).expect("the plaintext is within bounds");
        let mut message = nonce_bytes.to_vec();
        message.extend(ciphertext);
        message
    }

    /// Decrypts a ciphertext produced by [`Encryptor::encrypt`] under the
    /// same key; fails with [`TorError::CryptoError`] if the input is
    /// shorter than a nonce or the authentication tag does not check.
    pub fn decrypt(&self, bytes: &[u8]) -> (r: Result<Vec<u8>, TorError>)
        ensures
            match r {
                Ok(p) => aead_plain(self@, bytes@) == Some(p@),
                Err(e) => aead_plain(self@, bytes@) is None && e == TorError::CryptoError,
            },
    {
        if bytes.len() < NONCE_LENGTH {
            return Err(TorError::CryptoError);
        }
        let nonce = vstd::slice::slice_subrange(bytes, 0, NONCE_LENGTH);
        let body = vstd::slice::slice_subrange(bytes, NONCE_LENGTH, bytes.len());
        match self.aead_open_call(nonce, body) {
            Some(p) => Ok(p),
            None => Err(TorError::CryptoError),
        }
    }

    /// Relies on `aes_gcm::Aes256Gcm` (AEAD decryption): deterministic in
    /// key, nonce and ciphertext body; yields the plaintext exactly when the
    /// authentication tag checks.
    #[verifier::external_body]
    fn aead_open_call(&self, nonce: &[u8], body: &[u8]) -> (r: Option<Vec<u8>>)
        requires
            nonce@.len() == 12,
        ensures
            match r {
                Some(p) => aead_open(self@, nonce@, body@) == Some(p@),
                None => aead_open(self@, nonce@, body@) is None,
            },
    {
        let cipher = Aes256Gcm::new_from_slice(&self.key).expect("the key is 32 bytes");
        cipher.decrypt(Nonce::from_slice(nonce), body).ok()
    }
}

} // verus!
