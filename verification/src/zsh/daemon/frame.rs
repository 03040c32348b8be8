//! The frames that client and daemon exchange: the length of the payload
//! as eight bytes, least significant first, and then the payload.

use vstd::bytes::{
    lemma_auto_spec_u64_to_from_le_bytes, spec_u64_from_le_bytes, spec_u64_to_le_bytes,
    u64_from_le_bytes, u64_to_le_bytes,
};
use vstd::prelude::*;
use vstd::slice::slice_subrange;

verus! {

/// The number of bytes that hold the length of a payload.
pub const HEADER_LEN: usize = 8;

/// The header of a payload of `len` bytes.
pub open spec fn header(len: nat) -> Seq<u8> {
    spec_u64_to_le_bytes(len as u64)
}

/// The length that the header `bytes` announces.
pub open spec fn announced(bytes: Seq<u8>) -> nat {
    spec_u64_from_le_bytes(bytes) as nat
}

/// The frame of `payload`: its header and the payload itself.
pub open spec fn framed(payload: Seq<u8>) -> Seq<u8> {
    header(payload.len()) + payload
}

/// The payload of the frame `bytes`, if `bytes` is a frame: eight bytes
/// that announce a length, and exactly as many bytes behind them.
pub open spec fn unframed(bytes: Seq<u8>) -> Option<Seq<u8>> {
    if bytes.len() >= 8 && announced(bytes.take(8)) == bytes.len() - 8 {
        Some(bytes.skip(8))
    } else {
        None
    }
}

/// The header of a payload has eight bytes and announces its length.
pub proof fn lemma_header(len: nat)
    requires
        len <= u64::MAX,
    ensures
        header(len).len() == 8,
        announced(header(len)) == len,
{
    lemma_auto_spec_u64_to_from_le_bytes();
}

/// Eight bytes are the header of the length that they announce.
pub proof fn lemma_announced(bytes: Seq<u8>)
    requires
        bytes.len() == 8,
    ensures
        header(announced(bytes)) == bytes,
{
    lemma_auto_spec_u64_to_from_le_bytes();
}

/// Framing loses nothing: the payload of the frame of a payload is that payload.
pub proof fn lemma_frame_round_trip(payload: Seq<u8>)
    requires
        payload.len() <= u64::MAX,
    ensures
        unframed(framed(payload)) == Some(payload),
{
    lemma_header(payload.len());
    assert(framed(payload).take(8) =~= header(payload.len()));
    assert(framed(payload).skip(8) =~= payload);
}

/// A frame is the frame of its payload, and of no other.
pub proof fn lemma_unframe_is_inverse(bytes: Seq<u8>)
    ensures
        unframed(bytes) matches Some(payload) ==> framed(payload) == bytes,
{
    if let Some(payload) = unframed(bytes) {
        lemma_announced(bytes.take(8));
        assert(framed(payload) =~= bytes);
    }
}

/// Writes the header of a payload of `len` bytes.
pub fn encode_header(len: usize) -> (bytes: Vec<u8>)
    ensures
        bytes@ == header(len as nat),
        bytes@.len() == 8,
{
    u64_to_le_bytes(len as u64)
}

/// Reads the length that a header announces.
pub fn decode_header(bytes: &[u8]) -> (len: u64)
    requires
        bytes@.len() == 8,
    ensures
        len == announced(bytes@),
{
    u64_from_le_bytes(bytes)
}

/// Frames `payload`.
pub fn encode_frame(payload: &[u8]) -> (bytes: Vec<u8>)
    ensures
        bytes@ == framed(payload@),
{
    let mut bytes = encode_header(payload.len());
    let mut i: usize = 0;
    while i < payload.len()
        invariant
            i <= payload.len(),
            bytes@ == header(payload@.len()) + payload@.take(i as int),
        decreases payload.len() - i,
    {
        bytes.push(payload[i]);
        proof {
            assert(payload@.take(i + 1) =~= payload@.take(i as int).push(payload@[i as int]));
        }
        i = i + 1;
    }
    proof {
        assert(payload@.take(i as int) =~= payload@);
    }
    bytes
}

/// Takes the payload out of a frame; `None` where `bytes` is no frame.
pub fn decode_frame(bytes: &[u8]) -> (payload: Option<Vec<u8>>)
    ensures
        match unframed(bytes@) {
            Some(p) => payload is Some && payload->Some_0@ == p,
            None => payload is None,
        },
{
    if bytes.len() < HEADER_LEN {
        return None;
    }
    let head = slice_subrange(bytes, 0, HEADER_LEN);
    proof {
        assert(head@ =~= bytes@.take(8));
    }
    let len: u64 = decode_header(head);
    if len != (bytes.len() - HEADER_LEN) as u64 {
        return None;
    }
    let mut payload: Vec<u8> = Vec::new();
    let mut i: usize = HEADER_LEN;
    while i < bytes.len()
        invariant
            HEADER_LEN <= i <= bytes.len(),
            payload@ == bytes@.subrange(8, i as int),
        decreases bytes.len() - i,
    {
        payload.push(bytes[i]);
        proof {
            assert(bytes@.subrange(8, i + 1) =~= bytes@.subrange(8, i as int).push(
                bytes@[i as int],
            ));
        }
        i = i + 1;
    }
    proof {
        assert(bytes@.subrange(8, i as int) =~= bytes@.skip(8));
    }
    Some(payload)
}

} // verus!
