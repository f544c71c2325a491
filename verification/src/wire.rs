//! Field codec: the primitive on-wire encodings, all little-endian.
//!
//! Each primitive has a spec function giving its exact byte image, an
//! executable writer that appends that image to a buffer, and an executable
//! reader that recovers the value from a buffer at an offset.

use vstd::prelude::*;
use vstd::bytes::{
    spec_u16_to_le_bytes, spec_u16_from_le_bytes, lemma_auto_spec_u16_to_from_le_bytes,
    spec_u32_to_le_bytes, spec_u32_from_le_bytes, lemma_auto_spec_u32_to_from_le_bytes,
    spec_u64_to_le_bytes, spec_u64_from_le_bytes, lemma_auto_spec_u64_to_from_le_bytes,
    u16_to_le_bytes, u16_from_le_bytes, u32_to_le_bytes, u32_from_le_bytes, u64_to_le_bytes,
    u64_from_le_bytes,
};
use vstd::slice::{slice_subrange, slice_to_vec};
use vstd::string::StringSliceAdditionalSpecFns;
use vstd::utf8::{valid_utf8, encode_utf8};

verus! {

/// Type-marker byte that precedes a general string field.
pub const STRING_TYPE_CODE: u8 = 9;

/// How a decoder fails: the buffer ended before an expected field, a length
/// field was negative, or string bytes were not valid UTF-8.
#[derive(Clone, Copy, Debug, PartialEq, Eq, Structural)]
pub enum DecodeError {
    UnexpectedEnd,
    NegativeLength,
    InvalidUtf8,
}

// ---------------------------------------------------------------------------
// Byte images of the signed fixed-width integers
// ---------------------------------------------------------------------------

/// The two little-endian bytes of a signed 16-bit integer.
pub open spec fn spec_i16_le(x: i16) -> Seq<u8> {
    spec_u16_to_le_bytes(x as u16)
}

/// The four little-endian bytes of a signed 32-bit integer.
pub open spec fn spec_i32_le(x: i32) -> Seq<u8> {
    spec_u32_to_le_bytes(x as u32)
}

/// The eight little-endian bytes of a signed 64-bit integer.
pub open spec fn spec_i64_le(x: i64) -> Seq<u8> {
    spec_u64_to_le_bytes(x as u64)
}

/// The signed 16-bit value read little-endian at offset `i`.
pub open spec fn spec_i16_at(d: Seq<u8>, i: int) -> i16
    recommends
        0 <= i,
        i + 2 <= d.len(),
{
    spec_u16_from_le_bytes(d.subrange(i, i + 2)) as i16
}

/// The signed 32-bit value read little-endian at offset `i`.
pub open spec fn spec_i32_at(d: Seq<u8>, i: int) -> i32
    recommends
        0 <= i,
        i + 4 <= d.len(),
{
    spec_u32_from_le_bytes(d.subrange(i, i + 4)) as i32
}

/// The signed 64-bit value read little-endian at offset `i`.
pub open spec fn spec_i64_at(d: Seq<u8>, i: int) -> i64
    recommends
        0 <= i,
        i + 8 <= d.len(),
{
    spec_u64_from_le_bytes(d.subrange(i, i + 8)) as i64
}

/// The one-byte image of a boolean: 1 for true, 0 for false.
pub open spec fn spec_bool_byte(b: bool) -> u8 {
    if b {
        1u8
    } else {
        0u8
    }
}

/// A general string field: type marker, 4-byte length, then the bytes.
pub open spec fn spec_string_field(b: Seq<u8>) -> Seq<u8>
    recommends
        b.len() <= i32::MAX,
{
    seq![STRING_TYPE_CODE] + spec_i32_le(b.len() as i32) + b
}

// ---------------------------------------------------------------------------
// Round trips between a value and its byte image
// ---------------------------------------------------------------------------

/// Writing a signed 16-bit value and reading the bytes back is the identity,
/// in both directions.
pub proof fn lemma_i16_le_round_trip()
    ensures
        forall|x: i16| (#[trigger] spec_i16_le(x)).len() == 2,
        forall|x: i16| spec_u16_from_le_bytes(#[trigger] spec_i16_le(x)) as i16 == x,
        forall|s: Seq<u8>| s.len() == 2 ==> #[trigger] spec_i16_le(spec_i16_at(s, 0)) == s,
{
    lemma_auto_spec_u16_to_from_le_bytes();
    assert forall|x: i16| spec_u16_from_le_bytes(#[trigger] spec_i16_le(x)) as i16 == x by {
        lemma_auto_spec_u16_to_from_le_bytes();
        let y = x as u16;
        assert(spec_u16_to_le_bytes(y).len() == 2);
        assert(spec_u16_from_le_bytes(spec_u16_to_le_bytes(y)) == y);
        assert((x as u16) as i16 == x) by (bit_vector);
    }
    assert forall|s: Seq<u8>| s.len() == 2 implies #[trigger] spec_i16_le(spec_i16_at(s, 0))
        == s by {
        lemma_auto_spec_u16_to_from_le_bytes();
        let u = spec_u16_from_le_bytes(s.subrange(0, 2));
        assert(((u as i16) as u16) == u) by (bit_vector);
        assert(s.subrange(0, 2) =~= s);
    }
}

/// Writing a signed 32-bit value and reading the bytes back is the identity,
/// in both directions.
pub proof fn lemma_i32_le_round_trip()
    ensures
        forall|x: i32| (#[trigger] spec_i32_le(x)).len() == 4,
        forall|x: i32| spec_u32_from_le_bytes(#[trigger] spec_i32_le(x)) as i32 == x,
        forall|s: Seq<u8>| s.len() == 4 ==> #[trigger] spec_i32_le(spec_i32_at(s, 0)) == s,
{
    lemma_auto_spec_u32_to_from_le_bytes();
    assert forall|x: i32| spec_u32_from_le_bytes(#[trigger] spec_i32_le(x)) as i32 == x by {
        lemma_auto_spec_u32_to_from_le_bytes();
        let y = x as u32;
        assert(spec_u32_to_le_bytes(y).len() == 4);
        assert(spec_u32_from_le_bytes(spec_u32_to_le_bytes(y)) == y);
        assert((x as u32) as i32 == x) by (bit_vector);
    }
    assert forall|s: Seq<u8>| s.len() == 4 implies #[trigger] spec_i32_le(spec_i32_at(s, 0))
        == s by {
        lemma_auto_spec_u32_to_from_le_bytes();
        let u = spec_u32_from_le_bytes(s.subrange(0, 4));
        assert(((u as i32) as u32) == u) by (bit_vector);
        assert(s.subrange(0, 4) =~= s);
    }
}

/// Writing a signed 64-bit value and reading the bytes back is the identity,
/// in both directions.
pub proof fn lemma_i64_le_round_trip()
    ensures
        forall|x: i64| (#[trigger] spec_i64_le(x)).len() == 8,
        forall|x: i64| spec_u64_from_le_bytes(#[trigger] spec_i64_le(x)) as i64 == x,
        forall|s: Seq<u8>| s.len() == 8 ==> #[trigger] spec_i64_le(spec_i64_at(s, 0)) == s,
{
    lemma_auto_spec_u64_to_from_le_bytes();
    assert forall|x: i64| spec_u64_from_le_bytes(#[trigger] spec_i64_le(x)) as i64 == x by {
        lemma_auto_spec_u64_to_from_le_bytes();
        let y = x as u64;
        assert(spec_u64_to_le_bytes(y).len() == 8);
        assert(spec_u64_from_le_bytes(spec_u64_to_le_bytes(y)) == y);
        assert((x as u64) as i64 == x) by (bit_vector);
    }
    assert forall|s: Seq<u8>| s.len() == 8 implies #[trigger] spec_i64_le(spec_i64_at(s, 0))
        == s by {
        lemma_auto_spec_u64_to_from_le_bytes();
        let u = spec_u64_from_le_bytes(s.subrange(0, 8));
        assert(((u as i64) as u64) == u) by (bit_vector);
        assert(s.subrange(0, 8) =~= s);
    }
}

// ---------------------------------------------------------------------------
// Writers: append one field's byte image to a buffer
// ---------------------------------------------------------------------------

/// Append one byte.
pub fn put_u8(buf: &mut Vec<u8>, x: u8)
    ensures
        final(buf)@ == old(buf)@.push(x),
{
    buf.push(x);
}

/// Append the one-byte image of a boolean.
pub fn put_bool(buf: &mut Vec<u8>, b: bool)
    ensures
        final(buf)@ == old(buf)@.push(spec_bool_byte(b)),
{
    if b {
        buf.push(1);
    } else {
        buf.push(0);
    }
}

/// Append a signed 16-bit integer, little-endian.
pub fn put_i16_le(buf: &mut Vec<u8>, x: i16)
    ensures
        final(buf)@ == old(buf)@ + spec_i16_le(x),
{
    let mut tail = u16_to_le_bytes(x as u16);
    buf.append(&mut tail);
}

/// Append a signed 32-bit integer, little-endian.
pub fn put_i32_le(buf: &mut Vec<u8>, x: i32)
    ensures
        final(buf)@ == old(buf)@ + spec_i32_le(x),
{
    let mut tail = u32_to_le_bytes(x as u32);
    buf.append(&mut tail);
}

/// Append a signed 64-bit integer, little-endian.
pub fn put_i64_le(buf: &mut Vec<u8>, x: i64)
    ensures
        final(buf)@ == old(buf)@ + spec_i64_le(x),
{
    let mut tail = u64_to_le_bytes(x as u64);
    buf.append(&mut tail);
}

/// Append raw bytes.
pub fn put_bytes(buf: &mut Vec<u8>, data: &[u8])
    ensures
        final(buf)@ == old(buf)@ + data@,
{
    let mut tail = slice_to_vec(data);
    buf.append(&mut tail);
}

/// Append a string's UTF-8 bytes, with no marker and no length prefix.
pub fn put_str_raw(buf: &mut Vec<u8>, s: &str)
    ensures
        final(buf)@ == old(buf)@ + s.spec_bytes(),
{
    put_bytes(buf, s.as_bytes());
}

/// Append a general string field: type marker, 4-byte length, then the
/// string's UTF-8 bytes.
pub fn put_string_field(buf: &mut Vec<u8>, s: &str)
    requires
        s.spec_bytes().len() <= i32::MAX,
    ensures
        final(buf)@ == old(buf)@ + spec_string_field(s.spec_bytes()),
{
    put_u8(buf, STRING_TYPE_CODE);
    put_i32_le(buf, s.len() as i32);
    put_str_raw(buf, s);
    proof {
        assert(buf@ =~= old(buf)@ + spec_string_field(s.spec_bytes()));
    }
}

// ---------------------------------------------------------------------------
// Readers: recover one field from a buffer at an offset
// ---------------------------------------------------------------------------

/// Read one byte at `off`.
pub fn get_u8(d: &[u8], off: usize) -> (r: u8)
    requires
        off < d@.len(),
    ensures
        r == d@[off as int],
{
    d[off]
}

/// Read a signed 16-bit integer, little-endian, at `off`.
pub fn get_i16_le(d: &[u8], off: usize) -> (r: i16)
    requires
        off + 2 <= d@.len(),
    ensures
        r == spec_i16_at(d@, off as int),
{
    let _avail: usize = d.len();
    let sub = slice_subrange(d, off, off + 2);
    #[verifier::truncate] (u16_from_le_bytes(sub) as i16)
}

/// Read a signed 32-bit integer, little-endian, at `off`.
pub fn get_i32_le(d: &[u8], off: usize) -> (r: i32)
    requires
        off + 4 <= d@.len(),
    ensures
        r == spec_i32_at(d@, off as int),
{
    let _avail: usize = d.len();
    let sub = slice_subrange(d, off, off + 4);
    #[verifier::truncate] (u32_from_le_bytes(sub) as i32)
}

/// Read a signed 64-bit integer, little-endian, at `off`.
pub fn get_i64_le(d: &[u8], off: usize) -> (r: i64)
    requires
        off + 8 <= d@.len(),
    ensures
        r == spec_i64_at(d@, off as int),
{
    let _avail: usize = d.len();
    let sub = slice_subrange(d, off, off + 8);
    #[verifier::truncate] (u64_from_le_bytes(sub) as i64)
}

/// Relies on `String::from_utf8`: it returns `Ok` exactly when the input is
/// valid UTF-8, and the returned string then holds exactly those bytes.
#[verifier::external_body]
fn string_from_utf8(v: Vec<u8>) -> (r: Option<String>)
    ensures
        r is Some <==> valid_utf8(v@),
        r matches Some(s) ==> encode_utf8(s@) == v@,
{
    String::from_utf8(v).ok()
}

/// Read `n` bytes at `off` as a UTF-8 string. Invalid UTF-8 is a
/// data-corruption error, never silently replaced.
pub fn get_utf8(d: &[u8], off: usize, n: usize) -> (r: Result<String, DecodeError>)
    requires
        off + n <= d@.len(),
    ensures
        r is Ok <==> valid_utf8(d@.subrange(off as int, off + n)),
        r matches Ok(s) ==> encode_utf8(s@) == d@.subrange(off as int, off + n),
        r matches Err(e) ==> e == DecodeError::InvalidUtf8,
{
    let _avail: usize = d.len();
    let sub = slice_subrange(d, off, off + n);
    let v = slice_to_vec(sub);
    match string_from_utf8(v) {
        Some(s) => Ok(s),
        None => Err(DecodeError::InvalidUtf8),
    }
}

} // verus!
