//! Wire codec primitives: fixed-width little-endian integers, one-byte
//! booleans, and length-prefixed UTF-8 strings, written to and read from
//! byte buffers.
//!
//! Every multi-byte field on the wire is a fixed-width little-endian integer;
//! signed fields travel as the two's-complement reinterpretation of the
//! unsigned encoding. A variable-length field is a 32-bit length prefix
//! followed by the raw bytes; reading rejects a prefix that would run past
//! the end of the buffer.

use vstd::bytes::{
    spec_u16_from_le_bytes, spec_u16_to_le_bytes, spec_u32_from_le_bytes, spec_u32_to_le_bytes,
    spec_u64_from_le_bytes, spec_u64_to_le_bytes, u16_from_le_bytes, u16_to_le_bytes,
    u32_from_le_bytes, u32_to_le_bytes, u64_from_le_bytes, u64_to_le_bytes,
};
use vstd::prelude::*;
use vstd::slice::slice_subrange;
use vstd::string::StrSliceExecFns;
use vstd::string::StringSliceAdditionalSpecFns;
use vstd::utf8::{decode_utf8, encode_utf8, valid_utf8};

use crate::errors::DecodeError;

verus! {

/// The two's-complement reinterpretation of a signed 32-bit value.
pub open spec fn spec_i32_as_u32(x: i32) -> u32 {
    if x >= 0 {
        x as u32
    } else {
        (x + 0x1_0000_0000) as u32
    }
}

/// The signed value whose two's-complement reinterpretation is `u`.
pub open spec fn spec_u32_as_i32(u: u32) -> i32 {
    if u <= i32::MAX as u32 {
        u as i32
    } else {
        (u - 0x1_0000_0000) as i32
    }
}

/// The two's-complement reinterpretation of a signed 64-bit value.
pub open spec fn spec_i64_as_u64(x: i64) -> u64 {
    if x >= 0 {
        x as u64
    } else {
        (x + 0x1_0000_0000_0000_0000) as u64
    }
}

/// The signed value whose two's-complement reinterpretation is `u`.
pub open spec fn spec_u64_as_i64(u: u64) -> i64 {
    if u <= i64::MAX as u64 {
        u as i64
    } else {
        (u - 0x1_0000_0000_0000_0000) as i64
    }
}

/// The little-endian encoding of a signed 32-bit value: its two's-complement
/// reinterpretation, encoded unsigned.
pub open spec fn spec_i32_to_le_bytes(x: i32) -> Seq<u8> {
    spec_u32_to_le_bytes(spec_i32_as_u32(x))
}

/// The signed 32-bit value read from a little-endian buffer.
pub open spec fn spec_i32_from_le_bytes(s: Seq<u8>) -> i32 {
    spec_u32_as_i32(spec_u32_from_le_bytes(s))
}

/// The little-endian encoding of a signed 64-bit value: its two's-complement
/// reinterpretation, encoded unsigned.
pub open spec fn spec_i64_to_le_bytes(x: i64) -> Seq<u8> {
    spec_u64_to_le_bytes(spec_i64_as_u64(x))
}

/// The signed 64-bit value read from a little-endian buffer.
pub open spec fn spec_i64_from_le_bytes(s: Seq<u8>) -> i64 {
    spec_u64_as_i64(spec_u64_from_le_bytes(s))
}

/// Reinterpret a signed 32-bit value as its two's-complement bits.
pub fn i32_as_u32(x: i32) -> (u: u32)
    ensures
        u == spec_i32_as_u32(x),
{
    if x >= 0 {
        x as u32
    } else {
        let y: i64 = (x as i64) + 0x1_0000_0000;
        y as u32
    }
}

/// Reinterpret two's-complement bits as a signed 32-bit value.
pub fn u32_as_i32(u: u32) -> (x: i32)
    ensures
        x == spec_u32_as_i32(u),
{
    if u <= 0x7fff_ffff {
        u as i32
    } else {
        let y: i64 = (u as i64) - 0x1_0000_0000;
        y as i32
    }
}

/// Reinterpret a signed 64-bit value as its two's-complement bits.
pub fn i64_as_u64(x: i64) -> (u: u64)
    ensures
        u == spec_i64_as_u64(x),
{
    if x >= 0 {
        x as u64
    } else {
        let y: i128 = (x as i128) + 0x1_0000_0000_0000_0000;
        y as u64
    }
}

/// Reinterpret two's-complement bits as a signed 64-bit value.
pub fn u64_as_i64(u: u64) -> (x: i64)
    ensures
        x == spec_u64_as_i64(u),
{
    if u <= 0x7fff_ffff_ffff_ffff {
        u as i64
    } else {
        let y: i128 = (u as i128) - 0x1_0000_0000_0000_0000;
        y as i64
    }
}

/// The wire bytes of a string value: a 32-bit length prefix holding the byte
/// length, then the UTF-8 bytes themselves.
pub open spec fn spec_string_to_bytes(s: Seq<char>) -> Seq<u8> {
    spec_u32_to_le_bytes(encode_utf8(s).len() as u32) + encode_utf8(s)
}

/// The signed 32-bit encoding round-trips: reading back the written bytes
/// gives the written value.
pub proof fn lemma_i32_le_round_trip(x: i32)
    ensures
        spec_i32_to_le_bytes(x).len() == 4,
        spec_i32_from_le_bytes(spec_i32_to_le_bytes(x)) == x,
{
    vstd::bytes::lemma_auto_spec_u32_to_from_le_bytes();
    let u = spec_i32_as_u32(x);
    assert(spec_u32_to_le_bytes(u).len() == 4);
    assert(spec_u32_from_le_bytes(spec_u32_to_le_bytes(u)) == u);
}

/// The signed 64-bit encoding round-trips: reading back the written bytes
/// gives the written value.
pub proof fn lemma_i64_le_round_trip(x: i64)
    ensures
        spec_i64_to_le_bytes(x).len() == 8,
        spec_i64_from_le_bytes(spec_i64_to_le_bytes(x)) == x,
{
    vstd::bytes::lemma_auto_spec_u64_to_from_le_bytes();
    let u = spec_i64_as_u64(x);
    assert(spec_u64_to_le_bytes(u).len() == 8);
    assert(spec_u64_from_le_bytes(spec_u64_to_le_bytes(u)) == u);
}

/// Append one byte.
pub fn put_u8(out: &mut Vec<u8>, x: u8)
    ensures
        final(out)@ == old(out)@.push(x),
{
    out.push(x);
}

/// Append a 16-bit little-endian integer.
pub fn put_u16(out: &mut Vec<u8>, x: u16)
    ensures
        final(out)@ == old(out)@ + spec_u16_to_le_bytes(x),
{
    let mut piece = u16_to_le_bytes(x);
    out.append(&mut piece);
}

/// Append a 32-bit little-endian integer.
pub fn put_u32(out: &mut Vec<u8>, x: u32)
    ensures
        final(out)@ == old(out)@ + spec_u32_to_le_bytes(x),
{
    let mut piece = u32_to_le_bytes(x);
    out.append(&mut piece);
}

/// Append a 64-bit little-endian integer.
pub fn put_u64(out: &mut Vec<u8>, x: u64)
    ensures
        final(out)@ == old(out)@ + spec_u64_to_le_bytes(x),
{
    let mut piece = u64_to_le_bytes(x);
    out.append(&mut piece);
}

/// Append a signed 32-bit little-endian integer.
pub fn put_i32(out: &mut Vec<u8>, x: i32)
    ensures
        final(out)@ == old(out)@ + spec_i32_to_le_bytes(x),
{
    put_u32(out, i32_as_u32(x));
}

/// Append a signed 64-bit little-endian integer.
pub fn put_i64(out: &mut Vec<u8>, x: i64)
    ensures
        final(out)@ == old(out)@ + spec_i64_to_le_bytes(x),
{
    put_u64(out, i64_as_u64(x));
}

/// Append a boolean as one byte, 1 for true and 0 for false.
pub fn put_bool(out: &mut Vec<u8>, x: bool)
    ensures
        final(out)@ == old(out)@.push(if x { 1u8 } else { 0u8 }),
{
    out.push(if x { 1 } else { 0 });
}

/// Append a string as a 32-bit byte-length prefix followed by its UTF-8
/// bytes.
pub fn put_string(out: &mut Vec<u8>, s: &str)
    requires
        s.spec_bytes().len() <= u32::MAX,
    ensures
        final(out)@ == old(out)@ + spec_string_to_bytes(s@),
{
    let bytes = s.as_bytes();
    put_u32(out, bytes.len() as u32);
    let mut piece = s.as_bytes_vec();
    out.append(&mut piece);
}

/// Read one byte at `off`.
pub fn get_u8(b: &[u8], off: usize) -> (x: u8)
    requires
        off < b@.len(),
    ensures
        x == b@[off as int],
{
    b[off]
}

/// Read a 16-bit little-endian integer at `off`.
pub fn get_u16(b: &[u8], off: usize) -> (x: u16)
    requires
        off + 2 <= b@.len(),
    ensures
        x == spec_u16_from_le_bytes(b@.subrange(off as int, off + 2)),
{
    let _len: usize = b.len();
    u16_from_le_bytes(slice_subrange(b, off, off + 2))
}

/// Read a 32-bit little-endian integer at `off`.
pub fn get_u32(b: &[u8], off: usize) -> (x: u32)
    requires
        off + 4 <= b@.len(),
    ensures
        x == spec_u32_from_le_bytes(b@.subrange(off as int, off + 4)),
{
    let _len: usize = b.len();
    u32_from_le_bytes(slice_subrange(b, off, off + 4))
}

/// Read a 64-bit little-endian integer at `off`.
pub fn get_u64(b: &[u8], off: usize) -> (x: u64)
    requires
        off + 8 <= b@.len(),
    ensures
        x == spec_u64_from_le_bytes(b@.subrange(off as int, off + 8)),
{
    let _len: usize = b.len();
    u64_from_le_bytes(slice_subrange(b, off, off + 8))
}

/// Read a signed 32-bit little-endian integer at `off`.
pub fn get_i32(b: &[u8], off: usize) -> (x: i32)
    requires
        off + 4 <= b@.len(),
    ensures
        x == spec_i32_from_le_bytes(b@.subrange(off as int, off + 4)),
{
    u32_as_i32(get_u32(b, off))
}

/// Read a signed 64-bit little-endian integer at `off`.
pub fn get_i64(b: &[u8], off: usize) -> (x: i64)
    requires
        off + 8 <= b@.len(),
    ensures
        x == spec_i64_from_le_bytes(b@.subrange(off as int, off + 8)),
{
    u64_as_i64(get_u64(b, off))
}

/// Read a one-byte boolean at `off`: 1 is true, 0 is false, anything else is
/// an unrecognized-code failure.
pub fn get_bool(b: &[u8], off: usize) -> (r: Result<bool, DecodeError>)
    requires
        off < b@.len(),
    ensures
        b@[off as int] == 1 ==> r == Ok::<bool, DecodeError>(true),
        b@[off as int] == 0 ==> r == Ok::<bool, DecodeError>(false),
        b@[off as int] > 1 ==> r == Err::<bool, DecodeError>(
            DecodeError::UnrecognizedCode { code: b@[off as int] as u32 },
        ),
{
    let x = b[off];
    if x == 1 {
        Ok(true)
    } else if x == 0 {
        Ok(false)
    } else {
        Err(DecodeError::UnrecognizedCode { code: x as u32 })
    }
}

/// Relies on String::from_utf8: it succeeds exactly on valid UTF-8 input and
/// the returned string holds those exact bytes.
#[verifier::external_body]
fn string_from_utf8(v: Vec<u8>) -> (r: Option<String>)
    ensures
        match r {
            Some(s) => encode_utf8(s@) == v@ && valid_utf8(v@),
            None => !valid_utf8(v@),
        },
{
    match String::from_utf8(v) {
        Ok(s) => Some(s),
        Err(_) => None,
    }
}

/// Whether the buffer holds, starting at `off`, a complete length-prefixed
/// string field: an in-bounds prefix, in-bounds payload bytes, and valid
/// UTF-8.
pub open spec fn spec_string_field_ok(b: Seq<u8>, off: int) -> bool {
    &&& off + 4 <= b.len()
    &&& off + 4 + spec_u32_from_le_bytes(b.subrange(off, off + 4)) <= b.len()
    &&& valid_utf8(
        b.subrange(off + 4, off + 4 + spec_u32_from_le_bytes(b.subrange(off, off + 4))),
    )
}

/// The character content of the length-prefixed string field at `off`.
pub open spec fn spec_string_field_chars(b: Seq<u8>, off: int) -> Seq<char> {
    decode_utf8(
        b.subrange(off + 4, off + 4 + spec_u32_from_le_bytes(b.subrange(off, off + 4))),
    )
}

/// The total wire size of the length-prefixed string field at `off`: the
/// prefix plus the payload bytes.
pub open spec fn spec_string_field_size(b: Seq<u8>, off: int) -> int {
    4 + spec_u32_from_le_bytes(b.subrange(off, off + 4))
}

/// The failure that reading the string field at `off` reports: a truncation
/// error when the prefix or the payload would run past the buffer end, and a
/// UTF-8 error when the payload bytes do not decode.
pub open spec fn spec_string_field_err(b: Seq<u8>, off: int) -> DecodeError {
    if off + 4 > b.len() {
        DecodeError::Truncated { needed: 4, remaining: (b.len() - off) as usize }
    } else if off + spec_string_field_size(b, off) > b.len() {
        DecodeError::Truncated {
            needed: spec_u32_from_le_bytes(b.subrange(off, off + 4)) as usize,
            remaining: (b.len() - off - 4) as usize,
        }
    } else {
        DecodeError::InvalidUtf8
    }
}

/// Read a length-prefixed string field at `off`, returning the string and
/// the number of bytes consumed. Fails with a truncation error when the
/// prefix or the payload would run past the buffer end, and with a UTF-8
/// error when the payload bytes are not valid UTF-8; it never reads past the
/// declared length.
pub fn get_string(b: &[u8], off: usize) -> (r: Result<(String, usize), DecodeError>)
    requires
        off <= b@.len(),
    ensures
        spec_string_field_ok(b@, off as int) ==> (r matches Ok((s, consumed))
            && s@ == spec_string_field_chars(b@, off as int)
            && encode_utf8(s@) == b@.subrange(
                off + 4,
                off + spec_string_field_size(b@, off as int),
            )
            && consumed == spec_string_field_size(b@, off as int)
            && off + consumed <= b@.len()),
        !spec_string_field_ok(b@, off as int) ==> r == Err::<(String, usize), DecodeError>(
            spec_string_field_err(b@, off as int),
        ),
{
    if b.len() - off < 4 {
        return Err(DecodeError::Truncated { needed: 4, remaining: b.len() - off });
    }
    let n = get_u32(b, off);
    let n_usize = n as usize;
    if b.len() - off - 4 < n_usize {
        return Err(DecodeError::Truncated { needed: n_usize, remaining: b.len() - off - 4 });
    }
    let payload = slice_subrange(b, off + 4, off + 4 + n_usize);
    let piece = vstd::slice::slice_to_vec(payload);
    match string_from_utf8(piece) {
        Some(s) => {
            proof {
                vstd::utf8::encode_utf8_decode_utf8(s@);
            }
            Ok((s, 4 + n_usize))
        },
        None => Err(DecodeError::InvalidUtf8),
    }
}

} // verus!
