//! The client's side of a circuit: stepwise extension during the build, and
//! onion-wrapped reads and writes afterwards.
//!
//! The builder is a state machine driven from outside: `extend_request`
//! yields the next handshake message to put on the wire, `extend_response`
//! consumes the answer, installs the hop key and yields the directive that
//! names the new hop's successor. When every hop is established,
//! `into_client` hands out the finished circuit.

use vstd::prelude::*;
use vstd::pervasive::VecAdditionalExecFns;

use crate::encryption::{shared_key, Encryptor, KeyPair};
use crate::error::TorError;
use crate::onion::{
    count_established, decrypt_onion_layers, established_len, handshake_depth, keys_of,
    lemma_established_len_eq, lemma_established_prefix_some, onion_wrap_connect_to,
    onion_wrap_handshake, onion_wrap_packet, peel_all, peel_connect, peel_forward,
    prefix_encryptors, prefix_keys,
};
use crate::tor_message::{Addr, Next, NextSpec, TorMessage, TorMsgSpec};

verus! {

/// One half of a live circuit: the ordered hops, each with its key and its
/// successor. The read half and the write half of a connection each hold
/// one copy.
pub struct TorClient {
    pub nodes: Vec<(Encryptor, Next)>,
}

impl TorClient {
    /// A usable circuit: at least one hop, the last one pointing at the
    /// destination server, and short enough for the AEAD bound.
    pub open spec fn wf(self) -> bool {
        &&& self.nodes@.len() > 0
        &&& self.nodes@.last().1@ matches NextSpec::Server(_)
        &&& 40 * self.nodes@.len() + 66 <= 0x1000000000
    }

    /// A second handle onto the same circuit.
    pub fn duplicate(&self) -> (r: TorClient)
        ensures
            r.nodes@ == self.nodes@,
    {
        let mut nodes: Vec<(Encryptor, Next)> = Vec::new();
        let mut i: usize = 0;
        while i < self.nodes.len()
            invariant
                i <= self.nodes@.len(),
                nodes@ =~= self.nodes@.subrange(0, i as int),
            decreases self.nodes@.len() - i,
        {
            nodes.push(self.nodes[i]);
            i = i + 1;
        }
        proof {
            assert(nodes@ =~= self.nodes@);
        }
        TorClient { nodes }
    }

    /// Onion-wraps one payload for the whole circuit: the message to put on
    /// the wire, which the chain of hops peels back down to the payload.
    pub fn write(&self, data: &[u8]) -> (r: TorMessage)
        requires
            self.wf(),
            data@.len() + 40 * self.nodes@.len() <= 0x1000000000,
        ensures
            peel_forward(keys_of(self.nodes@), r@) == Ok::<Seq<u8>, TorError>(data@),
    {
        let r = onion_wrap_packet(self.nodes.as_slice(), data);
        match r {
            Some(m) => m,
            None => {
                proof {
                    assert(false);
                }
                TorMessage::NotForYou { data: Vec::new() }
            }
        }
    }

    /// Peels every layer off one backward wire message and returns the
    /// server payload inside, or the error of the layer that failed; a
    /// message whose innermost form is not a payload is a protocol error.
    pub fn read(&self, message: TorMessage) -> (r: Result<Vec<u8>, TorError>)
        ensures
            match r {
                Ok(p) => peel_all(keys_of(self.nodes@), message@) == Ok::<TorMsgSpec, TorError>(
                    TorMsgSpec::NotForYou { data: p@ },
                ),
                Err(e) => match peel_all(keys_of(self.nodes@), message@) {
                    Ok(m) => !(m matches TorMsgSpec::NotForYou { .. }) && e
                        == TorError::ProtocolError,
                    Err(e2) => e == e2,
                },
            },
    {
        let mut encs: Vec<Encryptor> = Vec::new();
        let mut i: usize = 0;
        while i < self.nodes.len()
            invariant
                i <= self.nodes@.len(),
                encs@.len() == i,
                forall|k: int| 0 <= k < i ==> encs@[k] == self.nodes@[k].0,
            decreases self.nodes@.len() - i,
        {
            let (e, _) = self.nodes[i];
            encs.push(e);
            i = i + 1;
        }
        proof {
            assert(encs@.map_values(|e: Encryptor| e@) =~= keys_of(self.nodes@));
        }
        match decrypt_onion_layers(encs.as_slice(), message) {
            Ok(TorMessage::NotForYou { data }) => Ok(data),
            Ok(_) => Err(TorError::ProtocolError),
            Err(e) => Err(e),
        }
    }
}

/// A circuit in the middle of being built: the hops in order, the leading
/// ones already holding a key, and the key pair of the extension in flight.
pub struct CircuitBuilder {
    pub hops: Vec<(Option<Encryptor>, Next)>,
    pub pending: Option<KeyPair>,
}

impl CircuitBuilder {
    /// A buildable chain: non-empty, short enough for the AEAD bound, every
    /// hop but the last pointing at a relay, the last at the server, and
    /// the established hops forming a prefix.
    pub open spec fn wf(self) -> bool {
        &&& self.hops@.len() > 0
        &&& 40 * self.hops@.len() + 66 <= 0x1000000000
        &&& self.hops@.last().1@ matches NextSpec::Server(_)
        &&& forall|i: int|
            established_len(self.hops@) <= i < self.hops@.len() ==> (
            #[trigger] self.hops@[i].0) is None
        &&& match self.pending {
            Some(kp) => kp.wf(),
            None => true,
        }
    }

    /// Lays out the chain for a path of relay addresses and a destination:
    /// hop `i` will be told to reach the following relay, the last hop to
    /// reach the server. An empty path is refused.
    pub fn new(node_addrs: &Vec<Addr>, server: Addr) -> (r: Result<CircuitBuilder, TorError>)
        requires
            40 * node_addrs@.len() + 66 <= 0x1000000000,
        ensures
            match r {
                Ok(b) => {
                    &&& node_addrs@.len() > 0
                    &&& b.wf()
                    &&& b.pending is None
                    &&& established_len(b.hops@) == 0
                    &&& b.hops@.len() == node_addrs@.len()
                    &&& forall|i: int|
                        0 <= i < node_addrs@.len() - 1 ==> (#[trigger] b.hops@[i].1)@
                            == NextSpec::Node(node_addrs@[i + 1]@)
                    &&& b.hops@.last().1@ == NextSpec::Server(server@)
                },
                Err(e) => node_addrs@.len() == 0 && e == TorError::ConfigError,
            },
    {
        if node_addrs.len() == 0 {
            return Err(TorError::ConfigError);
        }
        let mut hops: Vec<(Option<Encryptor>, Next)> = Vec::new();
        let mut i: usize = 1;
        while i < node_addrs.len()
            invariant
                1 <= i <= node_addrs@.len(),
                hops@.len() == i - 1,
                forall|k: int|
                    0 <= k < i - 1 ==> (#[trigger] hops@[k]) == (
                        None::<Encryptor>,
                        Next::Node(node_addrs@[k + 1]),
                    ),
            decreases node_addrs@.len() - i,
        {
            hops.push((None, Next::Node(node_addrs[i])));
            i = i + 1;
        }
        hops.push((None, Next::Server(server)));
        let b = CircuitBuilder { hops, pending: None };
        proof {
            lemma_established_len_eq(b.hops@, 0);
        }
        Ok(b)
    }

    /// Whether every hop holds a key, so that the circuit is complete.
    pub fn finished(&self) -> (r: bool)
        ensures
            r == (established_len(self.hops@) == self.hops@.len()),
    {
        let j = count_established(self.hops.as_slice());
        j == self.hops.len()
    }

    /// Starts extending the circuit by one hop: generates a fresh key pair,
    /// keeps it as pending, and returns the handshake message to send, the
    /// public key wrapped so that exactly the established hops peel their
    /// layer and the new hop reads it in the clear.
    pub fn extend_request(&mut self) -> (r: TorMessage)
        requires
            old(self).wf(),
        ensures
            final(self).hops == old(self).hops,
            final(self).pending matches Some(kp) && kp.wf() && peel_all(
                prefix_keys(final(self).hops@, handshake_depth(final(self).hops@)),
                r@,
            ) == Ok::<TorMsgSpec, TorError>(TorMsgSpec::HandShake(kp@)),
            final(self).wf(),
    {
        let kp = KeyPair::new();
        let pubkey = kp.initial_public_message();
        self.pending = Some(kp);
        let wrapped = onion_wrap_handshake(self.hops.as_slice(), pubkey);
        match wrapped {
            Some(m) => m,
            None => {
                proof {
                    assert(false);
                }
                TorMessage::NotForYou { data: Vec::new() }
            }
        }
    }

    /// Finishes one extension: peels the established layers off the
    /// response, which must be the new hop's handshake answer, derives the
    /// hop key from the pending key pair, installs it, and returns the
    /// successor directive to send for the new hop. On any failure the
    /// builder is unchanged and the error names the layer that failed.
    pub fn extend_response(&mut self, resp: TorMessage) -> (r: Result<TorMessage, TorError>)
        requires
            old(self).wf(),
            old(self).pending is Some,
            established_len(old(self).hops@) < old(self).hops@.len(),
        ensures
            match r {
                Ok(m) => {
                    let j = established_len(old(self).hops@);
                    &&& exists|pk: Seq<u8>|
                        {
                            &&& peel_all(prefix_keys(old(self).hops@, j), resp@) == Ok::<
                                TorMsgSpec,
                                TorError,
                            >(TorMsgSpec::HandShake(pk))
                            &&& final(self).hops@[j].0 matches Some(e) && e@ == #[trigger] shared_key(
                                old(self).pending->0@,
                                pk,
                            )
                        }
                    &&& final(self).hops@.len() == old(self).hops@.len()
                    &&& forall|i: int|
                        0 <= i < old(self).hops@.len() && i != j
                            ==> (#[trigger] final(self).hops@[i]) == old(self).hops@[i]
                    &&& final(self).hops@[j].1 == old(self).hops@[j].1
                    &&& established_len(final(self).hops@) == j + 1
                    &&& final(self).pending is None
                    &&& final(self).wf()
                    &&& peel_connect(prefix_keys(final(self).hops@, j + 1), m@) == Ok::<
                        NextSpec,
                        TorError,
                    >(old(self).hops@[j].1@)
                },
                Err(e) => *final(self) == *old(self) && match peel_all(
                    prefix_keys(old(self).hops@, established_len(old(self).hops@)),
                    resp@,
                ) {
                    Ok(m2) => !(m2 matches TorMsgSpec::HandShake(_)) && e
                        == TorError::ProtocolError,
                    Err(e2) => e == e2,
                },
            },
    {
        let j = count_established(self.hops.as_slice());
        let encs = prefix_encryptors(self.hops.as_slice(), j);
        let peeled = match decrypt_onion_layers(encs.as_slice(), resp) {
            Ok(m) => m,
            Err(e) => {
                return Err(e);
            }
        };
        let other_pub = match peeled {
            TorMessage::HandShake(pk) => pk,
            _ => {
                return Err(TorError::ProtocolError);
            }
        };
        let kp = match self.pending.take() {
            Some(kp) => kp,
            None => {
                proof {
                    assert(false);
                }
                return Err(TorError::ProtocolError);
            }
        };
        let encryptor = kp.handshake(other_pub);
        let (_, next) = self.hops[j];
        self.hops.set(j, (Some(encryptor), next));
        proof {
            assert(peel_all(prefix_keys(old(self).hops@, j as int), resp@) == Ok::<
                TorMsgSpec,
                TorError,
            >(TorMsgSpec::HandShake(other_pub@)));
            assert(shared_key(old(self).pending->0@, other_pub@) == encryptor@);
            assert forall|k: int| 0 <= k < j + 1 implies (#[trigger] self.hops@[k].0) is Some by {
                if k < j {
                    assert(self.hops@[k] == old(self).hops@[k]);
                }
            }
            assert(j + 1 < self.hops@.len() ==> self.hops@[j + 1].0 is None);
            lemma_established_len_eq(self.hops@, j + 1);
        }
        let connect = onion_wrap_connect_to(self.hops.as_slice());
        match connect {
            Some(m) => Ok(m),
            None => {
                proof {
                    assert(false);
                }
                Err(TorError::ProtocolError)
            }
        }
    }

    /// Hands out the finished circuit once every hop holds its key.
    pub fn into_client(self) -> (r: TorClient)
        requires
            self.wf(),
            established_len(self.hops@) == self.hops@.len(),
        ensures
            r.wf(),
            r.nodes@.len() == self.hops@.len(),
            forall|i: int|
                0 <= i < self.hops@.len() ==> (#[trigger] r.nodes@[i]) == (
                    self.hops@[i].0->0,
                    self.hops@[i].1,
                ),
    {
        let ghost hops0 = self.hops@;
        proof {
            assert forall|k: int| 0 <= k < hops0.len() implies (#[trigger] hops0[k].0) is Some by {
                lemma_established_prefix_some(hops0, k);
            }
        }
        let mut nodes: Vec<(Encryptor, Next)> = Vec::new();
        let mut i: usize = 0;
        while i < self.hops.len()
            invariant
                i <= hops0.len(),
                self.hops@ == hops0,
                forall|k: int| 0 <= k < hops0.len() ==> (#[trigger] hops0[k].0) is Some,
                nodes@.len() == i,
                forall|k: int|
                    0 <= k < i ==> (#[trigger] nodes@[k]) == (hops0[k].0->0, hops0[k].1),
            decreases hops0.len() - i,
        {
            let (enc_opt, next) = self.hops[i];
            match enc_opt {
                Some(e) => nodes.push((e, next)),
                None => {
                    proof {
                        assert(false);
                    }
                }
            }
            i = i + 1;
        }
        proof {
            assert(nodes@.last().1 == hops0.last().1);
        }
        TorClient { nodes }
    }
}

} // verus!
