//! Layering and un-layering messages across an ordered chain of hops.
//!
//! Wrapping folds right to left: the innermost message is encrypted under
//! the last contributing hop's key, serialized, encrypted under the previous
//! key, and so on; every layer is a `NotForYou` carrying the ciphertext of
//! the serialized message inside it. The spec functions `peel_all`,
//! `peel_forward` and `peel_connect` state what a receiver recovers, layer
//! by layer; each wrap function is proved to produce a message the matching
//! peel accepts.

use vstd::prelude::*;

use crate::codec::{
    dec_msg, dec_next, deserialize_tor_message, enc_msg, enc_next, lemma_msg_round_trip,
    lemma_next_round_trip, msg_wf, next_wf, serialize_next, serialize_tor_message,
};
use crate::encryption::{aead_plain, Encryptor};
use crate::error::TorError;
use crate::tor_message::{Next, NextSpec, TorMessage, TorMsgSpec};

verus! {

/// The hop keys of a chain of established hops, in chain order.
pub open spec fn keys_of(nodes: Seq<(Encryptor, Next)>) -> Seq<Seq<u8>> {
    nodes.map_values(|n: (Encryptor, Next)| n.0@)
}

/// How many leading hops of a partially built chain hold an encryptor.
pub open spec fn established_len(nodes: Seq<(Option<Encryptor>, Next)>) -> int
    decreases nodes.len(),
{
    if nodes.len() == 0 || nodes[0].0 is None {
        0
    } else {
        1 + established_len(nodes.skip(1))
    }
}

/// The keys of the first `upto` hops of a partially built chain.
pub open spec fn prefix_keys(nodes: Seq<(Option<Encryptor>, Next)>, upto: int) -> Seq<Seq<u8>> {
    Seq::new(upto as nat, |i: int| nodes[i].0->0@)
}

/// Peeling every layer of a backward-travelling message: each hop key in
/// order must open a `NotForYou` whose plaintext is one serialized message.
/// The result is the innermost message, or the error at the first layer
/// that fails.
pub open spec fn peel_all(keys: Seq<Seq<u8>>, m: TorMsgSpec) -> Result<TorMsgSpec, TorError>
    decreases keys.len(),
{
    if keys.len() == 0 {
        Ok(m)
    } else {
        match m {
            TorMsgSpec::NotForYou { data } => match aead_plain(keys[0], data) {
                Some(p) => match dec_msg(p) {
                    Some(inner) => peel_all(keys.skip(1), inner),
                    None => Err(TorError::DecodeError),
                },
                None => Err(TorError::CryptoError),
            },
            _ => Err(TorError::ProtocolError),
        }
    }
}

/// What the chain of relays recovers from a forward-travelling packet: every
/// hop but the last peels a layer and deserializes the next message; the
/// last hop's layer hides the raw payload itself. Meaningful for at least
/// one key.
pub open spec fn peel_forward(keys: Seq<Seq<u8>>, m: TorMsgSpec) -> Result<Seq<u8>, TorError>
    decreases keys.len(),
{
    match m {
        TorMsgSpec::NotForYou { data } => match aead_plain(keys[0], data) {
            Some(p) => if keys.len() <= 1 {
                Ok(p)
            } else {
                match dec_msg(p) {
                    Some(inner) => peel_forward(keys.skip(1), inner),
                    None => Err(TorError::DecodeError),
                }
            },
            None => Err(TorError::CryptoError),
        },
        _ => Err(TorError::ProtocolError),
    }
}

/// What the chain recovers from a connect directive: every hop but the last
/// peels a layer; the last hop must find a `NextNode` whose field decrypts
/// under its own key to a serialized successor. Meaningful for at least one
/// key.
pub open spec fn peel_connect(keys: Seq<Seq<u8>>, m: TorMsgSpec) -> Result<NextSpec, TorError>
    decreases keys.len(),
{
    if keys.len() <= 1 {
        match m {
            TorMsgSpec::NextNode { next_encrypted } => match aead_plain(keys[0], next_encrypted) {
                Some(p) => match dec_next(p) {
                    Some(n) => Ok(n),
                    None => Err(TorError::DecodeError),
                },
                None => Err(TorError::CryptoError),
            },
            _ => Err(TorError::ProtocolError),
        }
    } else {
        match m {
            TorMsgSpec::NotForYou { data } => match aead_plain(keys[0], data) {
                Some(p) => match dec_msg(p) {
                    Some(inner) => peel_connect(keys.skip(1), inner),
                    None => Err(TorError::DecodeError),
                },
                None => Err(TorError::CryptoError),
            },
            _ => Err(TorError::ProtocolError),
        }
    }
}

/// Wraps `innermost` under the keys of `encs`, last key first, so that
/// peeling with those keys in order recovers it.
fn wrap_under(encs: &[Encryptor], innermost: TorMessage) -> (r: TorMessage)
    requires
        enc_msg(innermost@).len() + 40 * encs@.len() <= 0x1000000000,
        msg_wf(innermost@),
    ensures
        peel_all(encs@.map_values(|e: Encryptor| e@), r@) == Ok::<TorMsgSpec, TorError>(
            innermost@,
        ),
        enc_msg(r@).len() == enc_msg(innermost@).len() + 40 * encs@.len(),
        r@ matches TorMsgSpec::NotForYou { .. } || encs@.len() == 0,
        msg_wf(r@),
{
    let ghost all_keys = encs@.map_values(|e: Encryptor| e@);
    let ghost inner0 = innermost@;
    let mut cur = innermost;
    let mut i: usize = encs.len();
    while i > 0
        invariant
            i <= encs@.len(),
            all_keys == encs@.map_values(|e: Encryptor| e@),
            enc_msg(inner0).len() + 40 * encs@.len() <= 0x1000000000,
            enc_msg(cur@).len() == enc_msg(inner0).len() + 40 * (encs@.len() - i),
            peel_all(all_keys.skip(i as int), cur@) == Ok::<TorMsgSpec, TorError>(inner0),
            msg_wf(cur@),
            i < encs@.len() ==> cur@ matches TorMsgSpec::NotForYou { .. },
        decreases i,
    {
        i = i - 1;
        let ghost prev = cur@;
        let ser = serialize_tor_message(&cur);
        let data = encs[i].encrypt(ser.as_slice());
        let ghost c = data@;
        cur = TorMessage::NotForYou { data };
        proof {
            let n = c.len();
            assert(n <= u64::MAX);
            lemma_msg_round_trip(prev);
            assert(all_keys[i as int] == encs@[i as int]@);
            assert(aead_plain(all_keys[i as int], c) == Some(enc_msg(prev)));
            assert(all_keys.skip(i as int).len() > 0);
            assert(all_keys.skip(i as int)[0] == all_keys[i as int]);
            assert(all_keys.skip(i as int).skip(1) =~= all_keys.skip(i as int + 1));
            assert(peel_all(all_keys.skip(i as int), cur@) == Ok::<TorMsgSpec, TorError>(inner0));
        }
    }
    proof {
        assert(all_keys.skip(0) =~= all_keys);
    }
    cur
}

/// Copies the encryptors of the first `upto` established hops.
pub(crate) fn prefix_encryptors(nodes: &[(Option<Encryptor>, Next)], upto: usize) -> (r: Vec<Encryptor>)
    requires
        upto <= nodes@.len(),
        forall|i: int| 0 <= i < upto ==> nodes@[i].0 is Some,
    ensures
        r@.map_values(|e: Encryptor| e@) =~= prefix_keys(nodes@, upto as int),
        r@.len() == upto,
{
    let mut out: Vec<Encryptor> = Vec::new();
    let mut i: usize = 0;
    while i < upto
        invariant
            i <= upto,
            upto <= nodes@.len(),
            forall|k: int| 0 <= k < upto ==> nodes@[k].0 is Some,
            out@.len() == i,
            forall|k: int| 0 <= k < i ==> out@[k] == nodes@[k].0->0,
        decreases upto - i,
    {
        let (enc_opt, _) = nodes[i];
        match enc_opt {
            Some(e) => out.push(e),
            None => {
                proof {
                    assert(false);
                }
            }
        }
        i = i + 1;
    }
    out
}

proof fn lemma_peel_all_to_forward(
    keys: Seq<Seq<u8>>,
    last: Seq<u8>,
    m: TorMsgSpec,
    d: Seq<u8>,
    p: Seq<u8>,
)
    requires
        peel_all(keys, m) == Ok::<TorMsgSpec, TorError>(TorMsgSpec::NotForYou { data: d }),
        aead_plain(last, d) == Some(p),
    ensures
        peel_forward(keys.push(last), m) == Ok::<Seq<u8>, TorError>(p),
    decreases keys.len(),
{
    if keys.len() == 0 {
        assert(m == TorMsgSpec::NotForYou { data: d });
        assert(keys.push(last)[0] == last);
    } else {
        match m {
            TorMsgSpec::NotForYou { data } => {
                let q = aead_plain(keys[0], data)->0;
                let inner = dec_msg(q)->0;
                lemma_peel_all_to_forward(keys.skip(1), last, inner, d, p);
                assert(keys.push(last)[0] == keys[0]);
                assert(keys.push(last).skip(1) =~= keys.skip(1).push(last));
            }
            _ => {
                assert(false);
            }
        }
    }
}

proof fn lemma_peel_all_to_connect(
    keys: Seq<Seq<u8>>,
    last: Seq<u8>,
    m: TorMsgSpec,
    d: Seq<u8>,
    n: NextSpec,
)
    requires
        peel_all(keys, m) == Ok::<TorMsgSpec, TorError>(
            TorMsgSpec::NextNode { next_encrypted: d },
        ),
        aead_plain(last, d) == Some(enc_next(n)),
        next_wf(n),
    ensures
        peel_connect(keys.push(last), m) == Ok::<NextSpec, TorError>(n),
    decreases keys.len(),
{
    if keys.len() == 0 {
        assert(m == TorMsgSpec::NextNode { next_encrypted: d });
        assert(keys.push(last)[0] == last);
        lemma_next_round_trip(n);
    } else {
        match m {
            TorMsgSpec::NotForYou { data } => {
                let q = aead_plain(keys[0], data)->0;
                let inner = dec_msg(q)->0;
                lemma_peel_all_to_connect(keys.skip(1), last, inner, d, n);
                assert(keys.push(last)[0] == keys[0]);
                assert(keys.push(last).skip(1) =~= keys.skip(1).push(last));
            }
            _ => {
                assert(false);
            }
        }
    }
}

/// What a wrapped packet promises, read back: if a chain of keys recovers a
/// payload in the forward direction, then peeling all layers but the last
/// yields exactly a `NotForYou` whose ciphertext opens to that payload under
/// the last key.
pub proof fn lemma_onion_round_trip(keys: Seq<Seq<u8>>, m: TorMsgSpec, payload: Seq<u8>)
    requires
        keys.len() >= 1,
        peel_forward(keys, m) == Ok::<Seq<u8>, TorError>(payload),
    ensures
        peel_all(keys.take(keys.len() - 1), m) matches Ok(inner) && inner matches
            TorMsgSpec::NotForYou { data } && aead_plain(keys.last(), data) == Some(payload),
    decreases keys.len(),
{
    match m {
        TorMsgSpec::NotForYou { data } => {
            if keys.len() == 1 {
                assert(keys.take(0) =~= Seq::<Seq<u8>>::empty());
            } else {
                let q = aead_plain(keys[0], data)->0;
                let inner = dec_msg(q)->0;
                lemma_onion_round_trip(keys.skip(1), inner, payload);
                let front = keys.take(keys.len() - 1);
                assert(front[0] == keys[0]);
                assert(front.skip(1) =~= keys.skip(1).take(keys.skip(1).len() - 1));
                assert(keys.skip(1).last() == keys.last());
            }
        }
        _ => {
            assert(false);
        }
    }
}

/// One backward chunk survives the whole chain: if each hop in order turned
/// the serialized form of the next message into the ciphertext of its own
/// `NotForYou` layer, then peeling with the hop keys in order recovers the
/// innermost message exactly.
pub proof fn lemma_backward_round_trip(keys: Seq<Seq<u8>>, msgs: Seq<TorMsgSpec>)
    requires
        msgs.len() == keys.len() + 1,
        forall|j: int|
            0 <= j < keys.len() ==> ((#[trigger] msgs[j]) matches TorMsgSpec::NotForYou { data }
                && aead_plain(keys[j], data) == Some(enc_msg(msgs[j + 1])) && msg_wf(msgs[j + 1])),
    ensures
        peel_all(keys, msgs[0]) == Ok::<TorMsgSpec, TorError>(msgs.last()),
    decreases keys.len(),
{
    if keys.len() == 0 {
    } else {
        assert(msgs[0] matches TorMsgSpec::NotForYou { data } && aead_plain(keys[0], data)
            == Some(enc_msg(msgs[1])) && msg_wf(msgs[1]));
        lemma_msg_round_trip(msgs[1]);
        let tail_keys = keys.skip(1);
        let tail_msgs = msgs.skip(1);
        assert forall|j: int| 0 <= j < tail_keys.len() implies ((#[trigger] tail_msgs[j]) matches
            TorMsgSpec::NotForYou { data } && aead_plain(tail_keys[j], data) == Some(
            enc_msg(tail_msgs[j + 1]),
        ) && msg_wf(tail_msgs[j + 1])) by {
            assert(tail_msgs[j] == msgs[j + 1]);
            assert(tail_msgs[j + 1] == msgs[j + 2]);
            assert(tail_keys[j] == keys[j + 1]);
        }
        lemma_backward_round_trip(tail_keys, tail_msgs);
        assert(tail_msgs[0] == msgs[1]);
        assert(tail_msgs.last() == msgs.last());
    }
}

/// Wraps `innermost`, which stands for the last hop of `nodes`, under the
/// encryptors of all earlier hops. Yields nothing only for an empty chain.
pub fn onion_wrap_tor_message(nodes: &[(Option<Encryptor>, Next)], innermost: TorMessage) -> (r:
    Option<TorMessage>)
    requires
        forall|i: int| 0 <= i < nodes@.len() - 1 ==> nodes@[i].0 is Some,
        enc_msg(innermost@).len() + 40 * nodes@.len() <= 0x1000000000,
        msg_wf(innermost@),
    ensures
        r is Some <==> nodes@.len() > 0,
        match r {
            Some(m) => peel_all(prefix_keys(nodes@, nodes@.len() - 1), m@) == Ok::<
                TorMsgSpec,
                TorError,
            >(innermost@),
            None => true,
        },
{
    if nodes.len() == 0 {
        return None;
    }
    let encs = prefix_encryptors(nodes, nodes.len() - 1);
    let wrapped = wrap_under(encs.as_slice(), innermost);
    Some(wrapped)
}

/// Wraps a payload for the whole chain: the innermost layer hides the raw
/// payload under the terminal hop's key, every earlier hop's key adds one
/// layer. Peeling forward through the chain recovers the payload. Yields
/// nothing only for an empty chain.
pub fn onion_wrap_packet(nodes: &[(Encryptor, Next)], data: &[u8]) -> (r: Option<TorMessage>)
    requires
        data@.len() + 40 * nodes@.len() <= 0x1000000000,
        nodes@.len() > 0 ==> nodes@.last().1@ matches NextSpec::Server(_),
    ensures
        r is Some <==> nodes@.len() > 0,
        match r {
            Some(m) => peel_forward(keys_of(nodes@), m@) == Ok::<Seq<u8>, TorError>(data@),
            None => true,
        },
{
    if nodes.len() == 0 {
        return None;
    }
    let (last_enc, _) = nodes[nodes.len() - 1];
    let c = last_enc.encrypt(data);
    let innermost = TorMessage::NotForYou { data: c };
    let mut encs: Vec<Encryptor> = Vec::new();
    let mut i: usize = 0;
    while i < nodes.len() - 1
        invariant
            i <= nodes@.len() - 1,
            out_keys_prefix(encs@, nodes@, i as int),
        decreases nodes@.len() - 1 - i,
    {
        let (e, _) = nodes[i];
        encs.push(e);
        i = i + 1;
    }
    let ghost front_keys = encs@.map_values(|e: Encryptor| e@);
    let wrapped = wrap_under(encs.as_slice(), innermost);
    proof {
        let last_key = nodes@.last().0@;
        lemma_peel_all_to_forward(front_keys, last_key, wrapped@, c@, data@);
        assert(front_keys.push(last_key) =~= keys_of(nodes@));
    }
    Some(wrapped)
}

/// The first `i` encryptors of the chain, copied in order.
spec fn out_keys_prefix(encs: Seq<Encryptor>, nodes: Seq<(Encryptor, Next)>, i: int) -> bool {
    encs.len() == i && forall|k: int| 0 <= k < i ==> encs[k] == nodes[k].0
}

pub(crate) proof fn lemma_established_len_eq(nodes: Seq<(Option<Encryptor>, Next)>, j: int)
    requires
        0 <= j <= nodes.len(),
        forall|k: int| 0 <= k < j ==> nodes[k].0 is Some,
        j < nodes.len() ==> nodes[j].0 is None,
    ensures
        established_len(nodes) == j,
    decreases nodes.len(),
{
    if nodes.len() == 0 {
    } else if j == 0 {
    } else {
        assert(nodes[0].0 is Some);
        let tail = nodes.skip(1);
        assert forall|k: int| 0 <= k < j - 1 implies tail[k].0 is Some by {
            assert(tail[k] == nodes[k + 1]);
        }
        assert(j - 1 < tail.len() ==> tail[j - 1].0 is None);
        lemma_established_len_eq(tail, j - 1);
    }
}

/// The established count never exceeds the chain length.
pub(crate) proof fn lemma_established_len_bound(nodes: Seq<(Option<Encryptor>, Next)>)
    ensures
        0 <= established_len(nodes) <= nodes.len(),
    decreases nodes.len(),
{
    if nodes.len() == 0 || nodes[0].0 is None {
    } else {
        lemma_established_len_bound(nodes.skip(1));
    }
}

/// Every hop before the established count holds an encryptor.
pub(crate) proof fn lemma_established_prefix_some(nodes: Seq<(Option<Encryptor>, Next)>, i: int)
    requires
        0 <= i < established_len(nodes),
    ensures
        nodes[i].0 is Some,
    decreases i,
{
    lemma_established_len_bound(nodes);
    if i == 0 {
    } else {
        lemma_established_prefix_some(nodes.skip(1), i - 1);
        assert(nodes.skip(1)[i - 1] == nodes[i]);
    }
}

/// Counts the leading hops that already hold an encryptor.
pub(crate) fn count_established(nodes: &[(Option<Encryptor>, Next)]) -> (r: usize)
    ensures
        r == established_len(nodes@),
        r <= nodes@.len(),
        forall|k: int| 0 <= k < r ==> nodes@[k].0 is Some,
{
    let mut j: usize = 0;
    loop
        invariant
            j <= nodes@.len(),
            forall|k: int| 0 <= k < j ==> nodes@[k].0 is Some,
        decreases nodes@.len() - j,
    {
        if j == nodes.len() {
            proof {
                lemma_established_len_eq(nodes@, j as int);
            }
            return j;
        }
        let (enc_opt, _) = nodes[j];
        if enc_opt.is_none() {
            proof {
                lemma_established_len_eq(nodes@, j as int);
            }
            return j;
        }
        j = j + 1;
    }
}

/// Tells the newest established hop who its successor is: a `NextNode`
/// carrying the successor encrypted under that hop's own key, wrapped under
/// every earlier hop's key. Yields nothing only when no hop is established.
pub fn onion_wrap_connect_to(nodes: &[(Option<Encryptor>, Next)]) -> (r: Option<TorMessage>)
    requires
        40 * nodes@.len() + 66 <= 0x1000000000,
    ensures
        r is Some <==> established_len(nodes@) > 0,
        match r {
            Some(m) => peel_connect(prefix_keys(nodes@, established_len(nodes@)), m@) == Ok::<
                NextSpec,
                TorError,
            >(nodes@[established_len(nodes@) - 1].1@),
            None => true,
        },
{
    let j = count_established(nodes);
    if j == 0 {
        return None;
    }
    let (enc_opt, next) = nodes[j - 1];
    let enc = match enc_opt {
        Some(e) => e,
        None => {
            proof {
                assert(false);
            }
            return None;
        }
    };
    let ser_next = serialize_next(&next);
    let c = enc.encrypt(ser_next.as_slice());
    let innermost = TorMessage::NextNode { next_encrypted: c };
    let encs = prefix_encryptors(nodes, j - 1);
    let ghost front_keys = prefix_keys(nodes@, j - 1);
    let wrapped = wrap_under(encs.as_slice(), innermost);
    proof {
        let last_key = nodes@[j - 1].0->0@;
        lemma_peel_all_to_connect(front_keys, last_key, wrapped@, c@, next@);
        assert(front_keys.push(last_key) =~= prefix_keys(nodes@, j as int));
    }
    Some(wrapped)
}

/// How many layers a handshake is wrapped under: every established hop
/// before the hop being extended to, which must see the plaintext.
pub open spec fn handshake_depth(nodes: Seq<(Option<Encryptor>, Next)>) -> int {
    if established_len(nodes) < nodes.len() - 1 {
        established_len(nodes)
    } else {
        nodes.len() - 1
    }
}

/// Wraps a handshake public key so that exactly the established prefix of
/// hops peels a layer and the hop being extended to reads the plaintext key.
/// Yields nothing only for an empty chain.
pub fn onion_wrap_handshake(nodes: &[(Option<Encryptor>, Next)], pubkey: [u8; 32]) -> (r: Option<
    TorMessage,
>)
    requires
        40 * nodes@.len() + 36 <= 0x1000000000,
    ensures
        r is Some <==> nodes@.len() > 0,
        match r {
            Some(m) => peel_all(prefix_keys(nodes@, handshake_depth(nodes@)), m@) == Ok::<
                TorMsgSpec,
                TorError,
            >(TorMsgSpec::HandShake(pubkey@)),
            None => true,
        },
{
    if nodes.len() == 0 {
        return None;
    }
    let j = count_established(nodes);
    let w = if j < nodes.len() - 1 {
        j
    } else {
        nodes.len() - 1
    };
    let innermost = TorMessage::HandShake(pubkey);
    let encs = prefix_encryptors(nodes, w);
    let wrapped = wrap_under(encs.as_slice(), innermost);
    Some(wrapped)
}

/// Peels every layer of a backward-travelling message with the hop keys in
/// order, deserializing between layers, and returns the innermost message.
/// Fails exactly where the matching layer fails: a missing `NotForYou` is a
/// protocol error, a bad ciphertext a crypto error, a bad serialization a
/// decode error.
pub fn decrypt_onion_layers(encryptors: &[Encryptor], data: TorMessage) -> (r: Result<
    TorMessage,
    TorError,
>)
    ensures
        match r {
            Ok(m) => peel_all(encryptors@.map_values(|e: Encryptor| e@), data@) == Ok::<
                TorMsgSpec,
                TorError,
            >(m@),
            Err(e) => peel_all(encryptors@.map_values(|e: Encryptor| e@), data@) == Err::<
                TorMsgSpec,
                TorError,
            >(e),
        },
{
    let ghost keys = encryptors@.map_values(|e: Encryptor| e@);
    let ghost m0 = data@;
    let mut cur = data;
    let mut i: usize = 0;
    proof {
        assert(keys.skip(0) =~= keys);
    }
    while i < encryptors.len()
        invariant
            i <= encryptors@.len(),
            keys == encryptors@.map_values(|e: Encryptor| e@),
            m0 == data@,
            peel_all(keys, m0) == peel_all(keys.skip(i as int), cur@),
        decreases encryptors@.len() - i,
    {
        let ghost before = cur@;
        match cur {
            TorMessage::NotForYou { data: d } => {
                match encryptors[i].decrypt(d.as_slice()) {
                    Ok(p) => {
                        match deserialize_tor_message(p.as_slice()) {
                            Ok(inner) => {
                                proof {
                                    assert(keys[i as int] == encryptors@[i as int]@);
                                    assert(keys.skip(i as int)[0] == keys[i as int]);
                                    assert(keys.skip(i as int).skip(1) =~= keys.skip(
                                        i as int + 1,
                                    ));
                                    assert(peel_all(keys.skip(i as int), before) == peel_all(
                                        keys.skip(i as int + 1),
                                        inner@,
                                    ));
                                }
                                cur = inner;
                            }
                            Err(e) => {
                                proof {
                                    assert(keys[i as int] == encryptors@[i as int]@);
                                    assert(keys.skip(i as int)[0] == keys[i as int]);
                                    assert(peel_all(keys.skip(i as int), before) == Err::<
                                        TorMsgSpec,
                                        TorError,
                                    >(e));
                                }
                                return Err(e);
                            }
                        }
                    }
                    Err(e) => {
                        proof {
                            assert(keys[i as int] == encryptors@[i as int]@);
                            assert(keys.skip(i as int)[0] == keys[i as int]);
                            assert(peel_all(keys.skip(i as int), before) == Err::<
                                TorMsgSpec,
                                TorError,
                            >(e));
                        }
                        return Err(e);
                    }
                }
            }
            _ => {
                proof {
                    assert(keys.skip(i as int).len() > 0);
                    assert(peel_all(keys.skip(i as int), before) == Err::<TorMsgSpec, TorError>(
                        TorError::ProtocolError,
                    ));
                }
                return Err(TorError::ProtocolError);
            }
        }
        i = i + 1;
    }
    proof {
        assert(keys.skip(encryptors@.len() as int) =~= Seq::<Seq<u8>>::empty());
    }
    Ok(cur)
}

} // verus!
