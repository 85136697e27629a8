//! Length-prefixed framing: a little-endian `u32` byte length followed by
//! that many payload bytes.
//!
//! The wrapper type carries a transport for the unverified connection code
//! to drive; the frame layout itself is defined and proved here, so that
//! whoever owns the socket only moves bytes.

use vstd::prelude::*;

use crate::codec::{dec_u32_le, enc_u32_le, lemma_u32_le_round, push_u32_le, read_u32_le};
use crate::error::TorError;

verus! {

/// A transport that carries length-prefixed frames.
pub struct LengthPrefixedIO<T> {
    inner: T,
}

impl<T> LengthPrefixedIO<T> {
    /// Wraps a transport.
    pub fn new(inner: T) -> (r: LengthPrefixedIO<T>) {
        LengthPrefixedIO { inner }
    }

    /// The wrapped transport.
    pub fn get_ref(&self) -> &T {
        &self.inner
    }

    /// Gives the transport back.
    pub fn into_inner(self) -> T {
        self.inner
    }
}

/// One frame: the payload length as little-endian `u32`, then the payload.
pub open spec fn enc_frame(payload: Seq<u8>) -> Seq<u8> {
    enc_u32_le(payload.len() as u32) + payload
}

/// Frames a payload; a payload too long for the length field is refused.
pub fn encode_frame(payload: &[u8]) -> (r: Result<Vec<u8>, TorError>)
    ensures
        match r {
            Ok(f) => payload@.len() <= u32::MAX && f@ == enc_frame(payload@),
            Err(e) => payload@.len() > u32::MAX && e == TorError::DecodeError,
        },
{
    if payload.len() > 0xffff_ffff_usize {
        return Err(TorError::DecodeError);
    }
    let mut out: Vec<u8> = Vec::new();
    push_u32_le(&mut out, payload.len() as u32);
    crate::codec::append_bytes(&mut out, payload);
    Ok(out)
}

/// The length field at the head of a frame, as a count of payload bytes.
pub fn frame_len(header: &[u8]) -> (r: usize)
    requires
        header@.len() >= 4,
        dec_u32_le(header@.subrange(0, 4)) <= usize::MAX,
    ensures
        r == dec_u32_le(header@.subrange(0, 4)),
{
    read_u32_le(header, 0) as usize
}

/// Splits one complete frame off the head of `buf`: the payload and how
/// many bytes the frame took. Nothing if the header or the payload is still
/// incomplete.
pub fn take_frame(buf: &[u8]) -> (r: Option<(Vec<u8>, usize)>)
    ensures
        match r {
            Some(taken) => {
                &&& buf@.len() >= 4
                &&& taken.1 == 4 + dec_u32_le(buf@.subrange(0, 4))
                &&& taken.1 <= buf@.len()
                &&& taken.0@ == buf@.subrange(4, taken.1 as int)
            },
            None => buf@.len() < 4 || 4 + dec_u32_le(buf@.subrange(0, 4)) > buf@.len(),
        },
{
    if buf.len() < 4 {
        return None;
    }
    let len32 = read_u32_le(buf, 0);
    if len32 as u64 > (buf.len() - 4) as u64 {
        return None;
    }
    let len = len32 as usize;
    let payload = vstd::slice::slice_subrange(buf, 4, 4 + len);
    Some((vstd::slice::slice_to_vec(payload), 4 + len))
}

/// A frame is read back as it was written: the length field of an encoded
/// frame holds the payload length, and the payload follows it exactly,
/// whatever bytes come after the frame.
pub proof fn lemma_frame_round_trip(payload: Seq<u8>, rest: Seq<u8>)
    requires
        payload.len() <= u32::MAX,
    ensures
        (enc_frame(payload) + rest).len() == 4 + payload.len() + rest.len(),
        dec_u32_le((enc_frame(payload) + rest).subrange(0, 4)) == payload.len(),
        (enc_frame(payload) + rest).subrange(4, 4 + payload.len() as int) == payload,
{
    let b = enc_frame(payload) + rest;
    assert(b.subrange(0, 4) =~= enc_u32_le(payload.len() as u32));
    lemma_u32_le_round(payload.len() as u32);
    assert(b.subrange(4, 4 + payload.len() as int) =~= payload);
}

} // verus!
