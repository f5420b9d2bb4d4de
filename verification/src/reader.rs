//! Reading opcode bytes, variable-length integers and symbol names off a byte
//! buffer.
//!
//! The decoding itself is `scroll`'s.  What this module adds is the view of it
//! that the interpreter's contracts are stated over, and the one check that
//! `scroll` does not make: that a symbol name ends in a zero byte.

use crate::error::BindError;
use scroll::{Pread, Sleb128, Uleb128};
use vstd::prelude::*;
use vstd::string::*;
use vstd::utf8::*;

verus! {

/// The error of a `scroll` read.  Nothing is known of a value of it.
#[verifier::external_type_specification]
#[verifier::external_body]
pub struct ExScrollError(scroll::Error);

/// What `scroll::Uleb128::read` makes of `bytes` at `offset`: the decoded
/// integer and the offset behind its last byte, or `None` where it fails.
pub uninterp spec fn uleb128_read(bytes: Seq<u8>, offset: int) -> Option<(u64, int)>;

/// What `scroll::Sleb128::read` makes of `bytes` at `offset`: the decoded
/// integer and the offset behind its last byte, or `None` where it fails.
pub uninterp spec fn sleb128_read(bytes: Seq<u8>, offset: int) -> Option<(i64, int)>;

/// The number of bytes from `from` on that come before the first zero byte, or
/// before the end of `bytes` where no zero byte follows.
pub open spec fn nul_free_len(bytes: Seq<u8>, from: int) -> nat
    decreases bytes.len() - from,
{
    if 0 <= from < bytes.len() && bytes[from] != 0 {
        1 + nul_free_len(bytes, from + 1)
    } else {
        0
    }
}

/// The bytes from `from` on that come before the first zero byte, or all that
/// are left where no zero byte follows.
pub open spec fn nul_free_run(bytes: Seq<u8>, from: int) -> Seq<u8> {
    bytes.subrange(from, from + nul_free_len(bytes, from))
}

/// `scroll::Pread::gread::<i8>` on a byte slice.  Within the slice it hands
/// back the byte at `offset`, read as a signed number, and moves `offset` one
/// on; at or behind the end it fails and leaves `offset` alone.
#[verifier::external_body]
fn scroll_gread_i8(bytes: &[u8], offset: &mut usize) -> (r: Result<i8, scroll::Error>)
    ensures
        match r {
            Ok(b) => {
                &&& *old(offset) < bytes@.len()
                &&& b == bytes@[*old(offset) as int] as i8
                &&& *final(offset) == *old(offset) + 1
            },
            Err(_) => *old(offset) >= bytes@.len() && *final(offset) == *old(offset),
        },
{
    bytes.gread::<i8>(offset)
}

/// `scroll::Uleb128::read`.  Its result is a function of the bytes and the
/// offset, named [`uleb128_read`].  Where it succeeds it has read at least one
/// byte, all of them within the slice, and `offset` stands behind the last;
/// where it fails `offset` is left alone.
#[verifier::external_body]
fn scroll_read_uleb128(bytes: &[u8], offset: &mut usize) -> (r: Result<u64, scroll::Error>)
    ensures
        match r {
            Ok(value) => {
                &&& uleb128_read(bytes@, *old(offset) as int) == Some(
                    (value, *final(offset) as int),
                )
                &&& *old(offset) < *final(offset) <= bytes@.len()
            },
            Err(_) => {
                &&& uleb128_read(bytes@, *old(offset) as int) is None
                &&& *final(offset) == *old(offset)
            },
        },
{
    Uleb128::read(bytes, offset)
}

/// `scroll::Sleb128::read`.  Its result is a function of the bytes and the
/// offset, named [`sleb128_read`].  Where it succeeds it has read at least one
/// byte, all of them within the slice, and `offset` stands behind the last;
/// where it fails `offset` is left alone.
#[verifier::external_body]
fn scroll_read_sleb128(bytes: &[u8], offset: &mut usize) -> (r: Result<i64, scroll::Error>)
    ensures
        match r {
            Ok(value) => {
                &&& sleb128_read(bytes@, *old(offset) as int) == Some(
                    (value, *final(offset) as int),
                )
                &&& *old(offset) < *final(offset) <= bytes@.len()
            },
            Err(_) => {
                &&& sleb128_read(bytes@, *old(offset) as int) is None
                &&& *final(offset) == *old(offset)
            },
        },
{
    Sleb128::read(bytes, offset)
}

/// `scroll::Pread::pread::<&str>` on a byte slice, with its default context:
/// a string delimited by a zero byte.  It takes the bytes from `offset` up to
/// the first zero byte, or up to the end of the slice where there is none, and
/// hands them back as a string if they are UTF-8.  It fails where `offset`
/// lies behind the end of the slice or the bytes are not UTF-8.
#[verifier::external_body]
fn scroll_pread_str<'a>(bytes: &'a [u8], offset: usize) -> (r: Result<&'a str, scroll::Error>)
    ensures
        match r {
            Ok(s) => {
                &&& offset <= bytes@.len()
                &&& s.spec_bytes() == nul_free_run(bytes@, offset as int)
            },
            Err(_) => offset > bytes@.len() || !valid_utf8(nul_free_run(bytes@, offset as int)),
        },
{
    bytes.pread::<&str>(offset)
}

/// The opcode byte at `offset`, if there is one.
pub open spec fn opcode_at(bytes: Seq<u8>, offset: int) -> Option<u8> {
    if 0 <= offset < bytes.len() {
        Some(bytes[offset])
    } else {
        None
    }
}

/// The unsigned variable-length integer at `offset` and the offset behind it.
/// The decoder reads at least one byte and none behind the end of `bytes`, so
/// the condition on the offset holds of every integer that it hands back.
pub open spec fn uleb128_at(bytes: Seq<u8>, offset: int) -> Option<(u64, int)> {
    match uleb128_read(bytes, offset) {
        Some((value, next)) if offset < next <= bytes.len() => Some((value, next)),
        _ => None,
    }
}

/// The signed variable-length integer at `offset` and the offset behind it.
/// The decoder reads at least one byte and none behind the end of `bytes`, so
/// the condition on the offset holds of every integer that it hands back.
pub open spec fn sleb128_at(bytes: Seq<u8>, offset: int) -> Option<(i64, int)> {
    match sleb128_read(bytes, offset) {
        Some((value, next)) if offset < next <= bytes.len() => Some((value, next)),
        _ => None,
    }
}

/// The symbol name at `offset` and the offset behind its terminator.  A name
/// is a run of UTF-8 bytes that a zero byte ends; a run that reaches the end
/// of `bytes` is no name.
pub open spec fn name_at(bytes: Seq<u8>, offset: int) -> Option<(Seq<char>, int)> {
    let len = nul_free_len(bytes, offset);
    if 0 <= offset && offset + len < bytes.len() && valid_utf8(nul_free_run(bytes, offset)) {
        Some((decode_utf8(nul_free_run(bytes, offset)), offset + len + 1))
    } else {
        None
    }
}

/// The error of a read that began at `offset`.
pub open spec fn decode_error(offset: usize) -> BindError {
    BindError::Decode { offset }
}

/// Reads the opcode byte at `offset` and moves `offset` behind it.
pub fn read_opcode(bytes: &[u8], offset: &mut usize) -> (r: Result<u8, BindError>)
    ensures
        match r {
            Ok(opcode) => {
                &&& opcode_at(bytes@, *old(offset) as int) == Some(opcode)
                &&& *final(offset) == *old(offset) + 1
            },
            Err(e) => {
                &&& opcode_at(bytes@, *old(offset) as int) is None
                &&& e == decode_error(*old(offset))
                &&& *final(offset) == *old(offset)
            },
        },
{
    let at = *offset;
    match scroll_gread_i8(bytes, offset) {
        Ok(signed) => {
            let ghost byte = bytes@[at as int];
            assert((byte as i8) as u8 == byte) by (bit_vector);
            Ok(#[verifier::truncate] (signed as u8))
        },
        Err(_) => Err(BindError::Decode { offset: at }),
    }
}

/// Reads the unsigned variable-length integer at `offset` and moves `offset`
/// behind it.
pub fn read_uleb128(bytes: &[u8], offset: &mut usize) -> (r: Result<u64, BindError>)
    ensures
        match r {
            Ok(value) => uleb128_at(bytes@, *old(offset) as int) == Some(
                (value, *final(offset) as int),
            ),
            Err(e) => {
                &&& uleb128_at(bytes@, *old(offset) as int) is None
                &&& e == decode_error(*old(offset))
                &&& *final(offset) == *old(offset)
            },
        },
{
    let at = *offset;
    match scroll_read_uleb128(bytes, offset) {
        Ok(value) => Ok(value),
        Err(_) => Err(BindError::Decode { offset: at }),
    }
}

/// Reads the signed variable-length integer at `offset` and moves `offset`
/// behind it.
pub fn read_sleb128(bytes: &[u8], offset: &mut usize) -> (r: Result<i64, BindError>)
    ensures
        match r {
            Ok(value) => sleb128_at(bytes@, *old(offset) as int) == Some(
                (value, *final(offset) as int),
            ),
            Err(e) => {
                &&& sleb128_at(bytes@, *old(offset) as int) is None
                &&& e == decode_error(*old(offset))
                &&& *final(offset) == *old(offset)
            },
        },
{
    let at = *offset;
    match scroll_read_sleb128(bytes, offset) {
        Ok(value) => Ok(value),
        Err(_) => Err(BindError::Decode { offset: at }),
    }
}

/// A run of bytes without a zero byte stays within `bytes`.
pub proof fn lemma_nul_free_len_bound(bytes: Seq<u8>, from: int)
    requires
        0 <= from <= bytes.len(),
    ensures
        from + nul_free_len(bytes, from) <= bytes.len(),
        forall|i: int| from <= i < from + nul_free_len(bytes, from) ==> bytes[i] != 0,
        from + nul_free_len(bytes, from) < bytes.len() ==> bytes[from + nul_free_len(
            bytes,
            from,
        )] == 0,
    decreases bytes.len() - from,
{
    if from < bytes.len() && bytes[from] != 0 {
        lemma_nul_free_len_bound(bytes, from + 1);
    }
}

/// Reads the symbol name at `offset` and moves `offset` behind the zero byte
/// that ends it.
pub fn read_name<'a>(bytes: &'a [u8], offset: &mut usize) -> (r: Result<&'a str, BindError>)
    ensures
        match r {
            Ok(name) => name_at(bytes@, *old(offset) as int) == Some(
                (name@, *final(offset) as int),
            ),
            Err(e) => {
                &&& name_at(bytes@, *old(offset) as int) is None
                &&& e == decode_error(*old(offset))
                &&& *final(offset) == *old(offset)
            },
        },
{
    let at = *offset;
    match scroll_pread_str(bytes, at) {
        Ok(name) => {
            proof {
                lemma_nul_free_len_bound(bytes@, at as int);
                encode_utf8_valid_utf8(name@);
                encode_utf8_decode_utf8(name@);
            }
            let len = name.len();
            if len < bytes.len() - at {
                *offset = at + len + 1;
                Ok(name)
            } else {
                Err(BindError::Decode { offset: at })
            }
        },
        Err(_) => {
            proof {
                if at <= bytes@.len() {
                    lemma_nul_free_len_bound(bytes@, at as int);
                }
            }
            Err(BindError::Decode { offset: at })
        },
    }
}

} // verus!
