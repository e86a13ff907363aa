//! Strings on the wire: their UTF-8 bytes after a length, two bytes long for
//! ordinary strings and one byte long for the short ones (user names and
//! domain names). A writer refuses a string whose bytes do not fit the
//! length; a reader refuses bytes that are not UTF-8.
use vstd::prelude::*;
use vstd::utf8::{decode_utf8, encode_utf8, valid_utf8};

use crate::wire::{
    enc_u16, enc_u8, holds_at, lemma_be_bytes_len, lemma_holds_split, lemma_parse_bytes_extend, lemma_primitives_extend,
    lemma_u16_roundtrip, lemma_u8_roundtrip, lift_view, parse_bytes, parse_u16, parse_u8, read_u16,
    read_u8, stable, write_u16, write_u8, Emit, Parsed, WireError,
};

verus! {

/// A string with a two-byte length; refused when its UTF-8 encoding is
/// longer than `u16::MAX` bytes.
pub open spec fn emit_str(s: Seq<char>) -> Emit {
    let b = encode_utf8(s);
    if b.len() > 0xFFFF {
        Emit::refused()
    } else {
        Emit::done(enc_u16(b.len() as u16) + b)
    }
}

/// A string with a one-byte length; refused when its UTF-8 encoding is
/// longer than `u8::MAX` bytes.
pub open spec fn emit_small_str(s: Seq<char>) -> Emit {
    let b = encode_utf8(s);
    if b.len() > 0xFF {
        Emit::refused()
    } else {
        Emit::done(enc_u8(b.len() as u8) + b)
    }
}

/// `n` bytes at `i` that must be UTF-8.
pub open spec fn parse_text(s: Seq<u8>, i: int, n: nat) -> Parsed<Seq<char>> {
    match parse_bytes(s, i, n) {
        Ok((b, j)) => if valid_utf8(b) {
            Ok((decode_utf8(b), j))
        } else {
            Err(WireError::InvalidData)
        },
        Err(e) => Err(e),
    }
}

/// A string with a two-byte length at `i`.
pub open spec fn parse_string(s: Seq<u8>, i: int) -> Parsed<Seq<char>> {
    match parse_u16(s, i) {
        Ok((n, j)) => parse_text(s, j, n as nat),
        Err(e) => Err(e),
    }
}

/// A string with a one-byte length at `i`.
pub open spec fn parse_small_string(s: Seq<u8>, i: int) -> Parsed<Seq<char>> {
    match parse_u8(s, i) {
        Ok((n, j)) => parse_text(s, j, n as nat),
        Err(e) => Err(e),
    }
}

pub proof fn lemma_text_roundtrip(c: Seq<char>, s: Seq<u8>, i: int)
    requires
        holds_at(s, i, encode_utf8(c)),
    ensures
        parse_text(s, i, encode_utf8(c).len()) == Ok::<(Seq<char>, int), WireError>(
            (c, i + encode_utf8(c).len()),
        ),
{
    vstd::utf8::encode_utf8_valid_utf8(c);
    vstd::utf8::encode_utf8_decode_utf8(c);
}

pub proof fn lemma_str_roundtrip(c: Seq<char>, s: Seq<u8>, i: int)
    requires
        emit_str(c).ok,
        holds_at(s, i, emit_str(c).bytes),
    ensures
        parse_string(s, i) == Ok::<(Seq<char>, int), WireError>((c, i + emit_str(c).bytes.len())),
{
    let b = encode_utf8(c);
    lemma_be_bytes_len(b.len(), 2);
    lemma_holds_split(s, i, enc_u16(b.len() as u16), b);
    lemma_u16_roundtrip(b.len() as u16, s, i);
    lemma_text_roundtrip(c, s, i + 2);
}

pub proof fn lemma_small_str_roundtrip(c: Seq<char>, s: Seq<u8>, i: int)
    requires
        emit_small_str(c).ok,
        holds_at(s, i, emit_small_str(c).bytes),
    ensures
        parse_small_string(s, i) == Ok::<(Seq<char>, int), WireError>(
            (c, i + emit_small_str(c).bytes.len()),
        ),
{
    let b = encode_utf8(c);
    lemma_holds_split(s, i, enc_u8(b.len() as u8), b);
    lemma_u8_roundtrip(b.len() as u8, s, i);
    lemma_text_roundtrip(c, s, i + 1);
}

/// A string read that did not run out of input reads the same once more
/// input is appended.
pub proof fn lemma_strings_extend(s: Seq<u8>, i: int, t: Seq<u8>)
    requires
        0 <= i,
    ensures
        stable(parse_string(s, i), parse_string(s + t, i)),
        stable(parse_small_string(s, i), parse_small_string(s + t, i)),
{
    lemma_primitives_extend(s, i, t);
    if let Ok((n, j)) = parse_u16(s, i) {
        if parse_bytes(s, j, n as nat) is Ok {
            lemma_parse_bytes_extend(s, j, n as nat, t);
        }
    }
    if let Ok((n, j)) = parse_u8(s, i) {
        if parse_bytes(s, j, n as nat) is Ok {
            lemma_parse_bytes_extend(s, j, n as nat, t);
        }
    }
}

/// Writes a string with a two-byte length. A string whose UTF-8 encoding is
/// longer than `u16::MAX` bytes is refused with `InvalidData`, and nothing
/// is written.
pub fn write_str(s: &str, out: &mut Vec<u8>) -> (r: Result<(), WireError>)
    ensures
        final(out)@ == old(out)@ + emit_str(s@).bytes,
        r is Ok <==> emit_str(s@).ok,
        r matches Err(e) ==> e == WireError::InvalidData,
{
    let bytes = s.as_bytes();
    let len = bytes.len();
    if len > 0xFFFF {
        return Err(WireError::InvalidData);
    }
    write_u16(len as u16, out);
    out.extend_from_slice(bytes);
    Ok(())
}

/// Writes a string with a one-byte length. A string whose UTF-8 encoding is
/// longer than `u8::MAX` bytes is refused with `InvalidData`, and nothing
/// is written.
pub fn write_small_str(s: &str, out: &mut Vec<u8>) -> (r: Result<(), WireError>)
    ensures
        final(out)@ == old(out)@ + emit_small_str(s@).bytes,
        r is Ok <==> emit_small_str(s@).ok,
        r matches Err(e) ==> e == WireError::InvalidData,
{
    let bytes = s.as_bytes();
    let len = bytes.len();
    if len > 0xFF {
        return Err(WireError::InvalidData);
    }
    write_u8(len as u8, out);
    out.extend_from_slice(bytes);
    Ok(())
}

/// Reads `n` bytes at `pos` as UTF-8 text.
pub fn read_text(buf: &[u8], pos: usize, n: usize) -> (r: Result<(String, usize), WireError>)
    requires
        pos <= buf@.len(),
    ensures
        lift_view(r) == parse_text(buf@, pos as int, n as nat),
        r matches Ok((_, end)) ==> pos <= end <= buf@.len(),
{
    if buf.len() - pos < n {
        return Err(WireError::UnexpectedEof);
    }
    let chunk = vstd::slice::slice_subrange(buf, pos, pos + n);
    let bytes = vstd::slice::slice_to_vec(chunk);
    match string_from_utf8(bytes) {
        Some(s) => {
            proof {
                vstd::utf8::encode_utf8_decode_utf8(s@);
            }
            Ok((s, pos + n))
        },
        None => Err(WireError::InvalidData),
    }
}

/// Reads a string with a two-byte length at `pos`.
pub fn read_string(buf: &[u8], pos: usize) -> (r: Result<(String, usize), WireError>)
    requires
        pos <= buf@.len(),
    ensures
        lift_view(r) == parse_string(buf@, pos as int),
        r matches Ok((_, end)) ==> pos <= end <= buf@.len(),
{
    let (n, p) = read_u16(buf, pos)?;
    read_text(buf, p, n as usize)
}

/// Reads a string with a one-byte length at `pos`.
pub fn read_small_string(buf: &[u8], pos: usize) -> (r: Result<(String, usize), WireError>)
    requires
        pos <= buf@.len(),
    ensures
        lift_view(r) == parse_small_string(buf@, pos as int),
        r matches Ok((_, end)) ==> pos <= end <= buf@.len(),
{
    let (n, p) = read_u8(buf, pos)?;
    read_text(buf, p, n as usize)
}

/// `String::from_utf8`: succeeds exactly when `bytes` are valid UTF-8, and
/// then gives the string whose UTF-8 encoding is `bytes`, as its
/// documentation says.
#[verifier::external_body]
fn string_from_utf8(bytes: Vec<u8>) -> (r: Option<String>)
    ensures
        r is Some <==> valid_utf8(bytes@),
        r matches Some(s) ==> encode_utf8(s@) == bytes@,
{
    match String::from_utf8(bytes) {
        Ok(s) => Some(s),
        Err(_) => None,
    }
}

} // verus!
