//! The wire encoding of protocol values.
//!
//! Every link in the overlay carries a deterministic tagged-sum format: enum
//! tags as little-endian `u32`, byte strings preceded by a little-endian
//! `u64` length, fixed-width fields in declaration order. The spec functions
//! here are the format's definition; the executable functions are proved
//! against them.

use vstd::prelude::*;

use crate::error::TorError;
use crate::tor_message::{Addr, AddrSpec, Next, NextSpec, TorMessage, TorMsgSpec};

verus! {

// ---------------------------------------------------------------------------
// Little-endian integer fields
// ---------------------------------------------------------------------------

/// The two bytes of `x`, least significant first.
pub open spec fn enc_u16_le(x: u16) -> Seq<u8> {
    seq![(x & 0xff) as u8, ((x >> 8) & 0xff) as u8]
}

/// The four bytes of `x`, least significant first.
pub open spec fn enc_u32_le(x: u32) -> Seq<u8> {
    seq![
        (x & 0xff) as u8,
        ((x >> 8) & 0xff) as u8,
        ((x >> 16) & 0xff) as u8,
        ((x >> 24) & 0xff) as u8,
    ]
}

/// The eight bytes of `x`, least significant first.
pub open spec fn enc_u64_le(x: u64) -> Seq<u8> {
    seq![
        (x & 0xff) as u8,
        ((x >> 8) & 0xff) as u8,
        ((x >> 16) & 0xff) as u8,
        ((x >> 24) & 0xff) as u8,
        ((x >> 32) & 0xff) as u8,
        ((x >> 40) & 0xff) as u8,
        ((x >> 48) & 0xff) as u8,
        ((x >> 56) & 0xff) as u8,
    ]
}

/// The value whose little-endian bytes are `b` (meaningful when `b` has
/// exactly two elements).
pub open spec fn dec_u16_le(b: Seq<u8>) -> u16 {
    (b[0] as u16) | ((b[1] as u16) << 8)
}

/// The value whose little-endian bytes are `b` (meaningful when `b` has
/// exactly four elements).
pub open spec fn dec_u32_le(b: Seq<u8>) -> u32 {
    (b[0] as u32) | ((b[1] as u32) << 8) | ((b[2] as u32) << 16) | ((b[3] as u32) << 24)
}

/// The value whose little-endian bytes are `b` (meaningful when `b` has
/// exactly eight elements).
pub open spec fn dec_u64_le(b: Seq<u8>) -> u64 {
    (b[0] as u64) | ((b[1] as u64) << 8) | ((b[2] as u64) << 16) | ((b[3] as u64) << 24)
        | ((b[4] as u64) << 32) | ((b[5] as u64) << 40) | ((b[6] as u64) << 48)
        | ((b[7] as u64) << 56)
}

/// Decoding the two little-endian bytes of a value recovers it.
pub proof fn lemma_u16_le_round(x: u16)
    ensures
        dec_u16_le(enc_u16_le(x)) == x,
{
    let b0 = (x & 0xff) as u8;
    let b1 = ((x >> 8) & 0xff) as u8;
    assert(((b0 as u16) | ((b1 as u16) << 8)) == x) by (bit_vector)
        requires
            b0 == (x & 0xff) as u8,
            b1 == ((x >> 8) & 0xff) as u8,
    ;
}

/// Decoding the four little-endian bytes of a value recovers it.
pub proof fn lemma_u32_le_round(x: u32)
    ensures
        dec_u32_le(enc_u32_le(x)) == x,
{
    let b0 = (x & 0xff) as u8;
    let b1 = ((x >> 8) & 0xff) as u8;
    let b2 = ((x >> 16) & 0xff) as u8;
    let b3 = ((x >> 24) & 0xff) as u8;
    assert(((b0 as u32) | ((b1 as u32) << 8) | ((b2 as u32) << 16) | ((b3 as u32) << 24)) == x)
        by (bit_vector)
        requires
            b0 == (x & 0xff) as u8,
            b1 == ((x >> 8) & 0xff) as u8,
            b2 == ((x >> 16) & 0xff) as u8,
            b3 == ((x >> 24) & 0xff) as u8,
    ;
}

/// Decoding the eight little-endian bytes of a value recovers it.
pub proof fn lemma_u64_le_round(x: u64)
    ensures
        dec_u64_le(enc_u64_le(x)) == x,
{
    let b0 = (x & 0xff) as u8;
    let b1 = ((x >> 8) & 0xff) as u8;
    let b2 = ((x >> 16) & 0xff) as u8;
    let b3 = ((x >> 24) & 0xff) as u8;
    let b4 = ((x >> 32) & 0xff) as u8;
    let b5 = ((x >> 40) & 0xff) as u8;
    let b6 = ((x >> 48) & 0xff) as u8;
    let b7 = ((x >> 56) & 0xff) as u8;
    assert(((b0 as u64) | ((b1 as u64) << 8) | ((b2 as u64) << 16) | ((b3 as u64) << 24)
        | ((b4 as u64) << 32) | ((b5 as u64) << 40) | ((b6 as u64) << 48)
        | ((b7 as u64) << 56)) == x) by (bit_vector)
        requires
            b0 == (x & 0xff) as u8,
            b1 == ((x >> 8) & 0xff) as u8,
            b2 == ((x >> 16) & 0xff) as u8,
            b3 == ((x >> 24) & 0xff) as u8,
            b4 == ((x >> 32) & 0xff) as u8,
            b5 == ((x >> 40) & 0xff) as u8,
            b6 == ((x >> 48) & 0xff) as u8,
            b7 == ((x >> 56) & 0xff) as u8,
    ;
}

/// Two bytes are recovered from the value they encode.
pub proof fn lemma_u16_le_complete(b: Seq<u8>)
    requires
        b.len() == 2,
    ensures
        enc_u16_le(dec_u16_le(b)) == b,
{
    let b0 = b[0];
    let b1 = b[1];
    let x = dec_u16_le(b);
    assert((x & 0xff) as u8 == b0 && ((x >> 8) & 0xff) as u8 == b1) by (bit_vector)
        requires
            x == ((b0 as u16) | ((b1 as u16) << 8)),
    ;
    assert(enc_u16_le(x) =~= b);
}

/// Four bytes are recovered from the value they encode.
pub proof fn lemma_u32_le_complete(b: Seq<u8>)
    requires
        b.len() == 4,
    ensures
        enc_u32_le(dec_u32_le(b)) == b,
{
    let b0 = b[0];
    let b1 = b[1];
    let b2 = b[2];
    let b3 = b[3];
    let x = dec_u32_le(b);
    assert((x & 0xff) as u8 == b0 && ((x >> 8) & 0xff) as u8 == b1 && ((x >> 16) & 0xff) as u8
        == b2 && ((x >> 24) & 0xff) as u8 == b3) by (bit_vector)
        requires
            x == ((b0 as u32) | ((b1 as u32) << 8) | ((b2 as u32) << 16) | ((b3 as u32) << 24)),
    ;
    assert(enc_u32_le(x) =~= b);
}

/// Eight bytes are recovered from the value they encode.
pub proof fn lemma_u64_le_complete(b: Seq<u8>)
    requires
        b.len() == 8,
    ensures
        enc_u64_le(dec_u64_le(b)) == b,
{
    let b0 = b[0];
    let b1 = b[1];
    let b2 = b[2];
    let b3 = b[3];
    let b4 = b[4];
    let b5 = b[5];
    let b6 = b[6];
    let b7 = b[7];
    let x = dec_u64_le(b);
    assert((x & 0xff) as u8 == b0 && ((x >> 8) & 0xff) as u8 == b1 && ((x >> 16) & 0xff) as u8
        == b2 && ((x >> 24) & 0xff) as u8 == b3 && ((x >> 32) & 0xff) as u8 == b4 && ((x >> 40)
        & 0xff) as u8 == b5 && ((x >> 48) & 0xff) as u8 == b6 && ((x >> 56) & 0xff) as u8 == b7)
        by (bit_vector)
        requires
            x == ((b0 as u64) | ((b1 as u64) << 8) | ((b2 as u64) << 16) | ((b3 as u64) << 24)
                | ((b4 as u64) << 32) | ((b5 as u64) << 40) | ((b6 as u64) << 48)
                | ((b7 as u64) << 56)),
    ;
    assert(enc_u64_le(x) =~= b);
}

// ---------------------------------------------------------------------------
// Executable byte-buffer helpers
// ---------------------------------------------------------------------------

/// Appends every byte of `src` to `out` in order.
pub fn append_bytes(out: &mut Vec<u8>, src: &[u8])
    ensures
        final(out)@ == old(out)@ + src@,
{
    let ghost start = out@;
    let mut i: usize = 0;
    while i < src.len()
        invariant
            i <= src@.len(),
            out@ == start + src@.subrange(0, i as int),
        decreases src@.len() - i,
    {
        out.push(src[i]);
        i = i + 1;
        proof {
            assert(out@ =~= start + src@.subrange(0, i as int));
        }
    }
    proof {
        assert(src@.subrange(0, src@.len() as int) =~= src@);
    }
}

/// Appends the two little-endian bytes of `x` to `out`.
pub fn push_u16_le(out: &mut Vec<u8>, x: u16)
    ensures
        final(out)@ == old(out)@ + enc_u16_le(x),
{
    out.push((x & 0xff) as u8);
    out.push(((x >> 8) & 0xff) as u8);
    proof {
        assert(out@ =~= old(out)@ + enc_u16_le(x));
    }
}

/// Appends the four little-endian bytes of `x` to `out`.
pub fn push_u32_le(out: &mut Vec<u8>, x: u32)
    ensures
        final(out)@ == old(out)@ + enc_u32_le(x),
{
    out.push((x & 0xff) as u8);
    out.push(((x >> 8) & 0xff) as u8);
    out.push(((x >> 16) & 0xff) as u8);
    out.push(((x >> 24) & 0xff) as u8);
    proof {
        assert(out@ =~= old(out)@ + enc_u32_le(x));
    }
}

/// Appends the eight little-endian bytes of `x` to `out`.
pub fn push_u64_le(out: &mut Vec<u8>, x: u64)
    ensures
        final(out)@ == old(out)@ + enc_u64_le(x),
{
    out.push((x & 0xff) as u8);
    out.push(((x >> 8) & 0xff) as u8);
    out.push(((x >> 16) & 0xff) as u8);
    out.push(((x >> 24) & 0xff) as u8);
    out.push(((x >> 32) & 0xff) as u8);
    out.push(((x >> 40) & 0xff) as u8);
    out.push(((x >> 48) & 0xff) as u8);
    out.push(((x >> 56) & 0xff) as u8);
    proof {
        assert(out@ =~= old(out)@ + enc_u64_le(x));
    }
}

/// Reads the little-endian `u16` at offset `i`.
pub fn read_u16_le(bytes: &[u8], i: usize) -> (r: u16)
    requires
        i + 2 <= bytes@.len(),
    ensures
        r == dec_u16_le(bytes@.subrange(i as int, i as int + 2)),
{
    let r = (bytes[i] as u16) | ((bytes[i + 1] as u16) << 8);
    proof {
        let s = bytes@.subrange(i as int, i as int + 2);
        assert(s[0] == bytes@[i as int] && s[1] == bytes@[i as int + 1]);
    }
    r
}

/// Reads the little-endian `u32` at offset `i`.
pub fn read_u32_le(bytes: &[u8], i: usize) -> (r: u32)
    requires
        i + 4 <= bytes@.len(),
    ensures
        r == dec_u32_le(bytes@.subrange(i as int, i as int + 4)),
{
    let r = (bytes[i] as u32) | ((bytes[i + 1] as u32) << 8) | ((bytes[i + 2] as u32) << 16)
        | ((bytes[i + 3] as u32) << 24);
    proof {
        let s = bytes@.subrange(i as int, i as int + 4);
        assert(s[0] == bytes@[i as int] && s[1] == bytes@[i as int + 1]
            && s[2] == bytes@[i as int + 2] && s[3] == bytes@[i as int + 3]);
    }
    r
}

// ---------------------------------------------------------------------------
// Addresses and successors
// ---------------------------------------------------------------------------

/// An address whose byte field has the width its variant declares.
pub open spec fn addr_wf(a: AddrSpec) -> bool {
    match a {
        AddrSpec::V4 { ip, port: _ } => ip.len() == 4,
        AddrSpec::V6 { ip, port: _ } => ip.len() == 16,
    }
}

/// The encoding of an address: variant as little-endian `u32` (0 for the
/// four-byte form, 1 for the sixteen-byte form), the address bytes, the port
/// as little-endian `u16`.
pub open spec fn enc_addr(a: AddrSpec) -> Seq<u8> {
    match a {
        AddrSpec::V4 { ip, port } => enc_u32_le(0) + ip + enc_u16_le(port),
        AddrSpec::V6 { ip, port } => enc_u32_le(1) + ip + enc_u16_le(port),
    }
}

/// The address encoded by `b`, if `b` is exactly one encoded address.
pub open spec fn dec_addr(b: Seq<u8>) -> Option<AddrSpec> {
    if b.len() < 4 {
        None
    } else {
        let v = dec_u32_le(b.subrange(0, 4));
        if v == 0 {
            if b.len() == 10 {
                Some(AddrSpec::V4 { ip: b.subrange(4, 8), port: dec_u16_le(b.subrange(8, 10)) })
            } else {
                None
            }
        } else if v == 1 {
            if b.len() == 22 {
                Some(AddrSpec::V6 { ip: b.subrange(4, 20), port: dec_u16_le(b.subrange(20, 22)) })
            } else {
                None
            }
        } else {
            None
        }
    }
}

/// A successor whose address is well formed.
pub open spec fn next_wf(n: NextSpec) -> bool {
    match n {
        NextSpec::Node(a) => addr_wf(a),
        NextSpec::Server(a) => addr_wf(a),
    }
}

/// The encoding of a successor: tag 0 for a relay node, tag 1 for the
/// destination server, then the address.
pub open spec fn enc_next(n: NextSpec) -> Seq<u8> {
    match n {
        NextSpec::Node(a) => enc_u32_le(0) + enc_addr(a),
        NextSpec::Server(a) => enc_u32_le(1) + enc_addr(a),
    }
}

/// The successor encoded by `b`, if `b` is exactly one encoded successor.
pub open spec fn dec_next(b: Seq<u8>) -> Option<NextSpec> {
    if b.len() < 4 {
        None
    } else {
        let tag = dec_u32_le(b.subrange(0, 4));
        if tag == 0 {
            match dec_addr(b.skip(4)) {
                Some(a) => Some(NextSpec::Node(a)),
                None => None,
            }
        } else if tag == 1 {
            match dec_addr(b.skip(4)) {
                Some(a) => Some(NextSpec::Server(a)),
                None => None,
            }
        } else {
            None
        }
    }
}

// ---------------------------------------------------------------------------
// Wire messages
// ---------------------------------------------------------------------------

/// A message whose fields have representable lengths: byte strings short
/// enough for their length field, public keys of exactly 32 bytes.
pub open spec fn msg_wf(m: TorMsgSpec) -> bool {
    match m {
        TorMsgSpec::NotForYou { data } => data.len() <= u64::MAX,
        TorMsgSpec::NextNode { next_encrypted } => next_encrypted.len() <= u64::MAX,
        TorMsgSpec::HandShake(pk) => pk.len() == 32,
    }
}

/// The encoding of a wire message: tag as little-endian `u32` (0 `NotForYou`,
/// 1 `NextNode`, 2 `HandShake`), then the fields; byte strings carry a
/// little-endian `u64` length, the public key is 32 raw bytes.
pub open spec fn enc_msg(m: TorMsgSpec) -> Seq<u8> {
    match m {
        TorMsgSpec::NotForYou { data } => enc_u32_le(0) + enc_u64_le(data.len() as u64) + data,
        TorMsgSpec::NextNode { next_encrypted } => enc_u32_le(1) + enc_u64_le(
            next_encrypted.len() as u64,
        ) + next_encrypted,
        TorMsgSpec::HandShake(pk) => enc_u32_le(2) + pk,
    }
}

/// The message encoded by `b`, if `b` is exactly one encoded message.
pub open spec fn dec_msg(b: Seq<u8>) -> Option<TorMsgSpec> {
    if b.len() < 4 {
        None
    } else {
        let tag = dec_u32_le(b.subrange(0, 4));
        if tag == 0 || tag == 1 {
            if b.len() < 12 {
                None
            } else {
                let n = dec_u64_le(b.subrange(4, 12));
                let payload = b.skip(12);
                if payload.len() == n as nat {
                    if tag == 0 {
                        Some(TorMsgSpec::NotForYou { data: payload })
                    } else {
                        Some(TorMsgSpec::NextNode { next_encrypted: payload })
                    }
                } else {
                    None
                }
            }
        } else if tag == 2 {
            if b.len() == 36 {
                Some(TorMsgSpec::HandShake(b.skip(4)))
            } else {
                None
            }
        } else {
            None
        }
    }
}

// ---------------------------------------------------------------------------
// Round trips
// ---------------------------------------------------------------------------

/// Decoding an encoded address recovers it.
pub proof fn lemma_addr_round_trip(a: AddrSpec)
    requires
        addr_wf(a),
    ensures
        dec_addr(enc_addr(a)) == Some(a),
{
    let b = enc_addr(a);
    match a {
        AddrSpec::V4 { ip, port } => {
            assert(b.subrange(0, 4) =~= enc_u32_le(0));
            lemma_u32_le_round(0);
            assert(b.subrange(4, 8) =~= ip);
            assert(b.subrange(8, 10) =~= enc_u16_le(port));
            lemma_u16_le_round(port);
        }
        AddrSpec::V6 { ip, port } => {
            assert(b.subrange(0, 4) =~= enc_u32_le(1));
            lemma_u32_le_round(1);
            assert(b.subrange(4, 20) =~= ip);
            assert(b.subrange(20, 22) =~= enc_u16_le(port));
            lemma_u16_le_round(port);
        }
    }
}

/// Decoding an encoded successor recovers it.
pub proof fn lemma_next_round_trip(n: NextSpec)
    requires
        next_wf(n),
    ensures
        dec_next(enc_next(n)) == Some(n),
{
    let b = enc_next(n);
    match n {
        NextSpec::Node(a) => {
            assert(b.subrange(0, 4) =~= enc_u32_le(0));
            lemma_u32_le_round(0);
            assert(b.skip(4) =~= enc_addr(a));
            lemma_addr_round_trip(a);
        }
        NextSpec::Server(a) => {
            assert(b.subrange(0, 4) =~= enc_u32_le(1));
            lemma_u32_le_round(1);
            assert(b.skip(4) =~= enc_addr(a));
            lemma_addr_round_trip(a);
        }
    }
}

/// Decoding an encoded message recovers it.
pub proof fn lemma_msg_round_trip(m: TorMsgSpec)
    requires
        msg_wf(m),
    ensures
        dec_msg(enc_msg(m)) == Some(m),
{
    let b = enc_msg(m);
    match m {
        TorMsgSpec::NotForYou { data } => {
            assert(b.subrange(0, 4) =~= enc_u32_le(0));
            lemma_u32_le_round(0);
            assert(b.subrange(4, 12) =~= enc_u64_le(data.len() as u64));
            lemma_u64_le_round(data.len() as u64);
            assert(b.skip(12) =~= data);
        }
        TorMsgSpec::NextNode { next_encrypted } => {
            assert(b.subrange(0, 4) =~= enc_u32_le(1));
            lemma_u32_le_round(1);
            assert(b.subrange(4, 12) =~= enc_u64_le(next_encrypted.len() as u64));
            lemma_u64_le_round(next_encrypted.len() as u64);
            assert(b.skip(12) =~= next_encrypted);
        }
        TorMsgSpec::HandShake(pk) => {
            assert(b.subrange(0, 4) =~= enc_u32_le(2));
            lemma_u32_le_round(2);
            assert(b.skip(4) =~= pk);
        }
    }
}

/// The format is unambiguous: bytes that decode to an address are exactly
/// that address's encoding.
pub proof fn lemma_dec_addr_sound(b: Seq<u8>, a: AddrSpec)
    requires
        dec_addr(b) == Some(a),
    ensures
        enc_addr(a) == b,
        addr_wf(a),
{
    let v = dec_u32_le(b.subrange(0, 4));
    lemma_u32_le_complete(b.subrange(0, 4));
    if v == 0 {
        lemma_u16_le_complete(b.subrange(8, 10));
        assert(enc_addr(a) =~= b);
    } else {
        lemma_u16_le_complete(b.subrange(20, 22));
        assert(enc_addr(a) =~= b);
    }
}

/// The format is unambiguous: bytes that decode to a successor are exactly
/// that successor's encoding.
pub proof fn lemma_dec_next_sound(b: Seq<u8>, n: NextSpec)
    requires
        dec_next(b) == Some(n),
    ensures
        enc_next(n) == b,
        next_wf(n),
{
    lemma_u32_le_complete(b.subrange(0, 4));
    match n {
        NextSpec::Node(a) => {
            lemma_dec_addr_sound(b.skip(4), a);
        }
        NextSpec::Server(a) => {
            lemma_dec_addr_sound(b.skip(4), a);
        }
    }
    assert(enc_next(n) =~= b);
}

/// The format is unambiguous: bytes that decode to a message are exactly
/// that message's encoding.
pub proof fn lemma_dec_msg_sound(b: Seq<u8>, m: TorMsgSpec)
    requires
        dec_msg(b) == Some(m),
    ensures
        enc_msg(m) == b,
        msg_wf(m),
{
    let tag = dec_u32_le(b.subrange(0, 4));
    lemma_u32_le_complete(b.subrange(0, 4));
    if tag == 0 || tag == 1 {
        lemma_u64_le_complete(b.subrange(4, 12));
        assert(enc_msg(m) =~= b);
    } else {
        assert(enc_msg(m) =~= b);
    }
}

// ---------------------------------------------------------------------------
// Executable serialization
// ---------------------------------------------------------------------------

/// Serializes a successor into the wire format.
pub fn serialize_next(n: &Next) -> (r: Vec<u8>)
    ensures
        r@ == enc_next(n@),
{
    let mut out: Vec<u8> = Vec::new();
    match n {
        Next::Node(a) => {
            push_u32_le(&mut out, 0);
            serialize_addr_into(&mut out, a);
        }
        Next::Server(a) => {
            push_u32_le(&mut out, 1);
            serialize_addr_into(&mut out, a);
        }
    }
    proof {
        assert(out@ =~= enc_next(n@));
    }
    out
}

/// Appends the wire form of an address to `out`.
fn serialize_addr_into(out: &mut Vec<u8>, a: &Addr)
    ensures
        final(out)@ == old(out)@ + enc_addr(a@),
{
    match a {
        Addr::V4 { ip, port } => {
            push_u32_le(out, 0);
            append_bytes(out, ip.as_slice());
            push_u16_le(out, *port);
        }
        Addr::V6 { ip, port } => {
            push_u32_le(out, 1);
            append_bytes(out, ip.as_slice());
            push_u16_le(out, *port);
        }
    }
    proof {
        assert(out@ =~= old(out)@ + enc_addr(a@));
    }
}

/// Parses a successor from `bytes`, which must be exactly one encoded
/// successor.
pub fn deserialize_next(bytes: &[u8]) -> (r: Result<Next, TorError>)
    ensures
        match r {
            Ok(n) => dec_next(bytes@) == Some(n@),
            Err(e) => dec_next(bytes@) is None && e == TorError::DecodeError,
        },
{
    if bytes.len() < 4 {
        return Err(TorError::DecodeError);
    }
    let tag = read_u32_le(bytes, 0);
    if tag == 0 || tag == 1 {
        match deserialize_addr(bytes, 4) {
            Some(a) => {
                if tag == 0 {
                    Ok(Next::Node(a))
                } else {
                    Ok(Next::Server(a))
                }
            }
            None => Err(TorError::DecodeError),
        }
    } else {
        Err(TorError::DecodeError)
    }
}

/// Parses an address from `bytes` starting at `from`; the address must reach
/// exactly to the end of `bytes`.
fn deserialize_addr(bytes: &[u8], from: usize) -> (r: Option<Addr>)
    requires
        from <= bytes@.len(),
    ensures
        match r {
            Some(a) => dec_addr(bytes@.skip(from as int)) == Some(a@),
            None => dec_addr(bytes@.skip(from as int)) is None,
        },
{
    let ghost b = bytes@.skip(from as int);
    let blen: usize = bytes.len();
    proof {
        assert(bytes@.len() <= usize::MAX);
    }
    if blen - from < 4 {
        return None;
    }
    let v = read_u32_le(bytes, from);
    proof {
        assert(b.subrange(0, 4) =~= bytes@.subrange(from as int, from as int + 4));
    }
    if v == 0 {
        if blen - from != 10 {
            return None;
        }
        let mut ip = [0u8; 4];
        let mut j: usize = 0;
        while j < 4
            invariant
                j <= 4,
                bytes@.len() <= usize::MAX,
                from + 10 <= bytes@.len(),
                forall|k: int| 0 <= k < j ==> ip@[k] == bytes@[from + 4 + k],
            decreases 4 - j,
        {
            ip[j] = bytes[from + 4 + j];
            j = j + 1;
        }
        let port = read_u16_le(bytes, from + 8);
        proof {
            assert(ip@ =~= b.subrange(4, 8));
            assert(b.subrange(8, 10) =~= bytes@.subrange(from as int + 8, from as int + 10));
        }
        Some(Addr::V4 { ip, port })
    } else if v == 1 {
        if blen - from != 22 {
            return None;
        }
        let mut ip = [0u8; 16];
        let mut j: usize = 0;
        while j < 16
            invariant
                j <= 16,
                bytes@.len() <= usize::MAX,
                from + 22 <= bytes@.len(),
                forall|k: int| 0 <= k < j ==> ip@[k] == bytes@[from + 4 + k],
            decreases 16 - j,
        {
            ip[j] = bytes[from + 4 + j];
            j = j + 1;
        }
        let port = read_u16_le(bytes, from + 20);
        proof {
            assert(ip@ =~= b.subrange(4, 20));
            assert(b.subrange(20, 22) =~= bytes@.subrange(from as int + 20, from as int + 22));
        }
        Some(Addr::V6 { ip, port })
    } else {
        None
    }
}

/// Serializes a wire message.
pub fn serialize_tor_message(m: &TorMessage) -> (r: Vec<u8>)
    ensures
        r@ == enc_msg(m@),
{
    let mut out: Vec<u8> = Vec::new();
    match m {
        TorMessage::NotForYou { data } => {
            push_u32_le(&mut out, 0);
            push_u64_le(&mut out, data.len() as u64);
            append_bytes(&mut out, data.as_slice());
        }
        TorMessage::NextNode { next_encrypted } => {
            push_u32_le(&mut out, 1);
            push_u64_le(&mut out, next_encrypted.len() as u64);
            append_bytes(&mut out, next_encrypted.as_slice());
        }
        TorMessage::HandShake(pk) => {
            push_u32_le(&mut out, 2);
            append_bytes(&mut out, pk.as_slice());
        }
    }
    proof {
        assert(out@ =~= enc_msg(m@));
    }
    out
}

/// Parses a wire message from `bytes`, which must be exactly one encoded
/// message.
pub fn deserialize_tor_message(bytes: &[u8]) -> (r: Result<TorMessage, TorError>)
    ensures
        match r {
            Ok(m) => dec_msg(bytes@) == Some(m@),
            Err(e) => dec_msg(bytes@) is None && e == TorError::DecodeError,
        },
{
    if bytes.len() < 4 {
        return Err(TorError::DecodeError);
    }
    let tag = read_u32_le(bytes, 0);
    if tag == 0 || tag == 1 {
        if bytes.len() < 12 {
            return Err(TorError::DecodeError);
        }
        let n = read_u64_le(bytes, 4);
        if (bytes.len() - 12) as u64 != n {
            return Err(TorError::DecodeError);
        }
        let payload = vstd::slice::slice_subrange(bytes, 12, bytes.len());
        let data = vstd::slice::slice_to_vec(payload);
        proof {
            assert(payload@ =~= bytes@.skip(12));
            assert(bytes@.skip(12).len() == n as nat);
        }
        if tag == 0 {
            Ok(TorMessage::NotForYou { data })
        } else {
            Ok(TorMessage::NextNode { next_encrypted: data })
        }
    } else if tag == 2 {
        if bytes.len() != 36 {
            return Err(TorError::DecodeError);
        }
        let mut pk = [0u8; 32];
        let mut j: usize = 0;
        while j < 32
            invariant
                j <= 32,
                bytes@.len() == 36,
                forall|k: int| 0 <= k < j ==> pk@[k] == bytes@[4 + k],
            decreases 32 - j,
        {
            pk[j] = bytes[4 + j];
            j = j + 1;
        }
        proof {
            assert(pk@ =~= bytes@.skip(4));
        }
        Ok(TorMessage::HandShake(pk))
    } else {
        Err(TorError::DecodeError)
    }
}

/// Reads the little-endian `u64` at offset `i`.
pub fn read_u64_le(bytes: &[u8], i: usize) -> (r: u64)
    requires
        i + 8 <= bytes@.len(),
    ensures
        r == dec_u64_le(bytes@.subrange(i as int, i as int + 8)),
{
    let r = (bytes[i] as u64) | ((bytes[i + 1] as u64) << 8) | ((bytes[i + 2] as u64) << 16)
        | ((bytes[i + 3] as u64) << 24) | ((bytes[i + 4] as u64) << 32)
        | ((bytes[i + 5] as u64) << 40) | ((bytes[i + 6] as u64) << 48)
        | ((bytes[i + 7] as u64) << 56);
    proof {
        let s = bytes@.subrange(i as int, i as int + 8);
        assert(forall|k: int| 0 <= k < 8 ==> s[k] == bytes@[i as int + k]);
    }
    r
}

} // verus!
