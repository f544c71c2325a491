//! Frame codec: a payload travels on the wire as a 4-byte little-endian
//! unsigned length followed by exactly that many payload bytes.
//!
//! The byte-stream reads and writes themselves live outside this crate; here
//! a frame is built from, and recovered out of, plain byte buffers.

use vstd::prelude::*;
use vstd::bytes::{
    spec_u32_to_le_bytes, spec_u32_from_le_bytes, lemma_auto_spec_u32_to_from_le_bytes,
    u32_to_le_bytes, u32_from_le_bytes,
};
use vstd::slice::{slice_subrange, slice_to_vec};
use crate::wire::{put_bytes, DecodeError};

verus! {

/// The wire image of one frame: the payload's length as four little-endian
/// bytes, then the payload itself.
pub open spec fn spec_frame(payload: Seq<u8>) -> Seq<u8>
    recommends
        payload.len() <= u32::MAX,
{
    spec_u32_to_le_bytes(payload.len() as u32) + payload
}

/// The payload length a frame header declares.
pub open spec fn spec_frame_len(d: Seq<u8>) -> u32
    recommends
        d.len() >= 4,
{
    spec_u32_from_le_bytes(d.subrange(0, 4))
}

/// Wrap a payload into a frame.
pub fn encode_frame(payload: &[u8]) -> (r: Vec<u8>)
    requires
        payload@.len() <= u32::MAX,
    ensures
        r@ == spec_frame(payload@),
        r@.len() == 4 + payload@.len(),
{
    let n: usize = payload.len();
    let mut buf = u32_to_le_bytes(#[verifier::truncate] (n as u32));
    put_bytes(&mut buf, payload);
    buf
}

/// The payload length declared by a 4-byte frame header.
pub fn frame_header_length(h: &[u8]) -> (r: u32)
    requires
        h@.len() == 4,
    ensures
        r == spec_frame_len(h@),
{
    let sub = slice_subrange(h, 0, 4);
    proof {
        assert(h@.subrange(0, 4) =~= h@);
    }
    u32_from_le_bytes(sub)
}

/// Unwrap one frame from the front of a buffer: succeeds exactly when the
/// buffer holds the 4-byte header and as many payload bytes as it declares,
/// and then returns exactly those payload bytes. A partial frame is never
/// returned.
pub fn decode_frame(data: &[u8]) -> (r: Result<Vec<u8>, DecodeError>)
    ensures
        r is Ok <==> data@.len() >= 4 && data@.len() >= 4 + spec_frame_len(data@),
        r matches Ok(p) ==> p@ == data@.subrange(4, 4 + spec_frame_len(data@) as int),
        r matches Err(e) ==> e == DecodeError::UnexpectedEnd,
{
    let dl: usize = data.len();
    if dl < 4 {
        return Err(DecodeError::UnexpectedEnd);
    }
    let n32 = u32_from_le_bytes(slice_subrange(data, 0, 4));
    let n = n32 as usize;
    if dl - 4 < n {
        return Err(DecodeError::UnexpectedEnd);
    }
    Ok(slice_to_vec(slice_subrange(data, 4, 4 + n)))
}

/// Law: framing round-trips. For any payload, the frame's length prefix
/// decodes to exactly the payload's length, and the bytes after the prefix
/// are exactly the payload — so unwrapping a wrapped payload reconstructs it.
pub proof fn lemma_frame_round_trip(payload: Seq<u8>)
    requires
        payload.len() <= u32::MAX,
    ensures
        spec_frame(payload).len() == 4 + payload.len(),
        spec_frame_len(spec_frame(payload)) == payload.len(),
        spec_frame(payload).subrange(4, spec_frame(payload).len() as int) == payload,
{
    lemma_auto_spec_u32_to_from_le_bytes();
    let h = spec_u32_to_le_bytes(payload.len() as u32);
    assert(h.len() == 4);
    assert(spec_u32_from_le_bytes(h) == payload.len() as u32);
    assert(spec_frame(payload).subrange(0, 4) =~= h);
    assert(spec_frame(payload).subrange(4, spec_frame(payload).len() as int) =~= payload);
}

} // verus!
